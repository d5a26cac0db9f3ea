use vstd::prelude::*;
use crate::error::{reported_errno, XDPError};
use crate::map_common::{KeyValue, MapValue, Outcome};
use crate::result::XDPResult;

verus! {

/// How many elements one call asks for when all the items of a map are
/// fetched in batches.
pub const BATCH_SIZE: u32 = 100;

/// Maps with fewer entries than this are walked key by key, also where the
/// kernel knows the batch calls.
pub const BATCH_MIN_ENTRIES: u32 = 50;

/// "No more entries": what the kernel says when a walk has run past the last key.
pub const ENOENT: i32 = 2;

/// "Invalid argument".
pub const EINVAL: i32 = 22;

/// "Operation not supported".
pub const EOPNOTSUPP: i32 = 95;

/// The result of a batch operation.
pub struct BatchResult<K, V> {
    pub items: Vec<KeyValue<K, V>>,
    pub next_key: Option<u32>,
    pub num_items: u32,
}

/// What the kernel reported of a batch, before the items are put together.
#[derive(Copy, Clone, Debug, PartialEq, Eq, Structural)]
pub struct BatchResultInternal {
    pub next_key: Option<u32>,
    pub num_items: u32,
}

/// True if a batch lookup with this outcome has come to a clean end: the
/// call failed, and with one of the two error numbers that say so, "invalid
/// argument" or "no more entries". An error number that a call which went
/// through has left untouched ends nothing.
pub open spec fn batch_ended(outcome: Outcome) -> bool {
    outcome.failed() && (outcome.errno == EINVAL || outcome.errno == ENOENT)
}

/// True if a batch lookup with this outcome is no failure: the kernel took
/// the call, or the call came to a clean end. Every other failed call is a
/// failure of the lookup.
pub open spec fn batch_went_through(outcome: Outcome) -> bool {
    !outcome.failed() || outcome.errno == EINVAL || outcome.errno == ENOENT
}

/// The key to go on from after a batch: none once the call has come to a
/// clean end, else the one that the kernel handed back.
pub open spec fn batch_cursor(outcome: Outcome, nkey: u32) -> Option<u32> {
    if batch_ended(outcome) {
        None
    } else {
        Some(nkey)
    }
}

/// Reads what the kernel answered to a batch lookup: `nkey` is the key it
/// handed back to go on from, `count` the number of elements that the call
/// reports. Fewer elements than were asked for are no failure, and none are
/// none. A call that failed with "invalid argument" or "no more entries" is
/// a clean end: it is no error, and there is no key to go on from. Any other
/// failed call is the error "Error looking up batch of elements" with the
/// kernel's error number.
pub fn lookup_batch_prealloc(outcome: Outcome, nkey: u32, count: u32) -> (r: XDPResult<
    BatchResultInternal,
>)
    ensures
        batch_went_through(outcome) ==> r == Ok::<BatchResultInternal, XDPError>(
            BatchResultInternal { next_key: batch_cursor(outcome, nkey), num_items: count },
        ),
        !batch_went_through(outcome) ==> r is Err && r->Err_0.code() == reported_errno(
            outcome.errno,
        ) && r->Err_0.tells("Error looking up batch of elements"@),
{
    let e = outcome.errno;
    let ended = outcome.rc < 0 && (e == EINVAL || e == ENOENT);
    let seen = if ended {
        Outcome { rc: 0, errno: e }
    } else {
        outcome
    };
    let next_key = if ended {
        None
    } else {
        Some(nkey)
    };
    let ret = BatchResultInternal { next_key, num_items: count };
    seen.check(ret, "Error looking up batch of elements")
}

/// The items of a batch of `n` elements whose keys and values the kernel
/// wrote side by side: the last element comes first.
pub open spec fn batch_items<K, V>(keys: Seq<K>, vals: Seq<V>, n: nat) -> Seq<
    KeyValue<K, MapValue<V>>,
> {
    Seq::new(
        n,
        |j: int| KeyValue { key: keys[n - 1 - j], value: MapValue::Single(vals[n - 1 - j]) },
    )
}

/// Moves the first `n` elements of a batch from the buffers to `result`, the
/// last of them first. The keys that were not used stay in `keys`; `vals` is
/// left empty.
pub fn populate_batch_result<K: Copy, V: Copy>(
    n: u32,
    result: &mut Vec<KeyValue<K, MapValue<V>>>,
    keys: &mut Vec<K>,
    vals: &mut Vec<V>,
)
    requires
        n <= old(keys)@.len(),
        n <= old(vals)@.len(),
    ensures
        final(result)@ == old(result)@ + batch_items(old(keys)@, old(vals)@, n as nat),
        final(keys)@ == old(keys)@.subrange(n as int, old(keys)@.len() as int),
        final(vals)@.len() == 0,
{
    let count: usize = n as usize;
    vals.truncate(count);
    let mut i: usize = count;
    while i > 0
        invariant
            i <= count,
            count == n,
            count <= keys@.len(),
            keys@ == old(keys)@,
            vals@ == old(vals)@.subrange(0, i as int),
            i <= old(vals)@.len(),
            result@ == old(result)@ + Seq::new(
                (count - i) as nat,
                |j: int|
                    KeyValue {
                        key: old(keys)@[count - 1 - j],
                        value: MapValue::Single(old(vals)@[count - 1 - j]),
                    },
            ),
        decreases i,
    {
        let key = keys[i - 1];
        let value = vals.pop().unwrap();
        result.push(KeyValue { key, value: MapValue::Single(value) });
        i -= 1;
        assert(vals@ =~= old(vals)@.subrange(0, i as int));
        assert(result@ =~= old(result)@ + Seq::new(
            (count - i) as nat,
            |j: int|
                KeyValue {
                    key: old(keys)@[count - 1 - j],
                    value: MapValue::Single(old(vals)@[count - 1 - j]),
                },
        ));
    }
    let rest = keys.split_off(count);
    *keys = rest;
    assert(result@ =~= old(result)@ + batch_items(old(keys)@, old(vals)@, n as nat));
}

} // verus!
