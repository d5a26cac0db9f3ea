use std::marker::PhantomData;
use vstd::layout::size_of;
use vstd::prelude::*;
use crate::error::{reported_errno, XDPError};
use crate::items::{ItemsWalk, WalkView};
use crate::map_batch::{
    batch_cursor, batch_items, batch_went_through, lookup_batch_prealloc, populate_batch_result,
    BatchResult, BATCH_MIN_ENTRIES, EINVAL, EOPNOTSUPP,
};
use crate::map_common::{
    copy_vec, count_mismatch_error, count_mismatch_message, key_size_error, key_size_message,
    no_such_map_message, validate_map, value_size_error, value_size_message, CreateCall,
    Creation, DeleteCall, KeyValue, LookupBatchCall, LookupCall, MapDescriptor, MapInfo,
    MapValue, NextKeyCall, Outcome, UpdateBatchCall, UpdateCall,
};
use crate::map_flags::MapFlags;
use crate::map_types::{map_type_of, MapType};
use crate::result::XDPResult;
use crate::update_plan::{PlanView, UpdatePlan};

verus! {

/// Used for working with normal eBPF maps, whose values all CPUs share. The
/// handle settles which kernel call an operation takes, and reads the
/// kernel's answer; the caller makes the call.
pub struct XDPMap<K, V> {
    info: MapInfo,
    _key: PhantomData<K>,
    _val: PhantomData<V>,
}

impl<K, V> View for XDPMap<K, V> {
    type V = MapInfo;

    closed spec fn view(&self) -> MapInfo {
        self.info
    }
}

impl<K, V> XDPMap<K, V> {
    /// No handle of this type stands for a map of a per-CPU kind.
    #[verifier::type_invariant]
    spec fn values_are_shared(self) -> bool {
        !self.info.map_type.spec_is_per_cpu()
    }
}

impl<K: Default + Copy, V: Default + Copy> XDPMap<K, V> {
    /// Create a new map: checks the kind and the sizes, and hands back the
    /// call that makes the map. Per-CPU kinds are refused here, with "invalid
    /// argument"; so are sizes that are not those of `K` and `V`. With
    /// `batching_support` the handle will use the kernel's batch calls.
    pub fn create(
        map_type: MapType,
        key_size: u32,
        value_size: u32,
        max_entries: u32,
        map_flags: u32,
        batching_support: bool,
    ) -> (r: XDPResult<Creation<XDPMap<K, V>>>)
        ensures
            map_type.spec_is_per_cpu() ==> r is Err && r->Err_0.code() == EINVAL
                && r->Err_0.tells("Improper map type, use rxdp::PerCpuMap::create"@),
            !map_type.spec_is_per_cpu() && key_size != size_of::<K>() ==> r is Err
                && r->Err_0.tells(key_size_message(key_size, size_of::<K>())),
            !map_type.spec_is_per_cpu() && key_size == size_of::<K>() && value_size != size_of::<
                V,
            >() ==> r is Err && r->Err_0.tells(value_size_message(value_size, size_of::<V>())),
            !map_type.spec_is_per_cpu() && key_size == size_of::<K>() && value_size == size_of::<
                V,
            >() ==> r is Ok && r->Ok_0.spec_call() == (CreateCall {
                map_type,
                key_size,
                value_size,
                max_entries,
                map_flags,
            }) && r->Ok_0.spec_map()@ == (MapInfo {
                map_fd: -1i32,
                map_type,
                max_entries,
                batching_support,
            }),
    {
        if map_type.is_per_cpu() {
            return Err(XDPError::raise(EINVAL, "Improper map type, use rxdp::PerCpuMap::create"));
        }
        if core::mem::size_of::<K>() != key_size as usize {
            return Err(key_size_error(key_size, core::mem::size_of::<K>()));
        }
        if core::mem::size_of::<V>() != value_size as usize {
            return Err(value_size_error(value_size, core::mem::size_of::<V>()));
        }
        let call = CreateCall { map_type, key_size, value_size, max_entries, map_flags };
        let map = XDPMap {
            info: MapInfo { map_fd: -1, map_type, max_entries, batching_support },
            _key: PhantomData,
            _val: PhantomData,
        };
        Ok(Creation::new(call, map))
    }

    /// Reads the kernel's answer to the call that makes the map: the handle
    /// with the descriptor that the kernel returned, or the error "Error
    /// creating new map" with the kernel's error number.
    pub fn finish_create(creation: Creation<XDPMap<K, V>>, outcome: Outcome) -> (r: XDPResult<
        XDPMap<K, V>,
    >)
        ensures
            !outcome.failed() ==> r is Ok && r->Ok_0@ == (MapInfo {
                map_fd: outcome.rc,
                ..creation.spec_map()@
            }),
            outcome.failed() ==> r is Err && r->Err_0.code() == reported_errno(outcome.errno)
                && r->Err_0.tells("Error creating new map"@),
    {
        let pending = creation.into_map();
        proof {
            use_type_invariant(&pending);
        }
        let m = XDPMap {
            info: MapInfo { map_fd: outcome.rc, ..pending.info },
            _key: PhantomData,
            _val: PhantomData,
        };
        outcome.check(m, "Error creating new map")
    }

    /// Get access to the eBPF map `map_name`, of which the loader found
    /// `found`. This will fail if the map is not there, if it is of a per-CPU
    /// kind, or if the requested key/value sizes don't match the key/value
    /// sizes of the map.
    pub fn new(found: Option<MapDescriptor>, map_name: &str, batching_support: bool) -> (r:
        XDPResult<XDPMap<K, V>>)
        ensures
            match found {
                Some(d) if d.map_fd >= 0 => if d.key_size != size_of::<K>() {
                    r is Err && r->Err_0.tells(key_size_message(d.key_size, size_of::<K>()))
                } else if map_type_of(d.map_type).spec_is_per_cpu() {
                    r is Err && r->Err_0.code() == EINVAL && r->Err_0.tells(
                        "Improper map type, use rxdp::PerCPUMap::new"@,
                    )
                } else if d.value_size != size_of::<V>() {
                    r is Err && r->Err_0.tells(value_size_message(d.value_size, size_of::<V>()))
                } else {
                    r is Ok && r->Ok_0@ == (MapInfo {
                        map_fd: d.map_fd,
                        map_type: map_type_of(d.map_type),
                        max_entries: d.max_entries,
                        batching_support,
                    })
                },
                _ => r is Err && r->Err_0.tells(no_such_map_message(map_name@)),
            },
    {
        let (map_fd, vsize, mtype, max_entries) = match validate_map::<K>(found, map_name) {
            Ok(t) => t,
            Err(e) => {
                return Err(e);
            },
        };
        let map_type = MapType::from(mtype);
        if map_type.is_per_cpu() {
            return Err(XDPError::raise(EINVAL, "Improper map type, use rxdp::PerCPUMap::new"));
        }
        let req_val_size: usize = core::mem::size_of::<V>();
        if req_val_size != vsize as usize {
            return Err(value_size_error(vsize, req_val_size));
        }
        Ok(
            XDPMap {
                info: MapInfo { map_fd, map_type, max_entries, batching_support },
                _key: PhantomData,
                _val: PhantomData,
            },
        )
    }

    /// True if the handle uses the kernel's batch calls.
    pub fn batching_supported(&self) -> (r: bool)
        ensures
            r == self@.batching_support,
    {
        self.info.batching_support
    }

    /// True if updates of many elements go one by one.
    pub fn update_batching_not_supported(&self) -> (r: bool)
        ensures
            r == !self@.batching_support,
    {
        !self.info.batching_support
    }

    /// File descriptor for this map.
    pub fn map_fd(&self) -> (r: i32)
        ensures
            r == self@.map_fd,
    {
        self.info.map_fd
    }

    /// The kind of the map, which is none of the per-CPU kinds.
    pub fn map_type(&self) -> (r: MapType)
        ensures
            r == self@.map_type,
            !r.spec_is_per_cpu(),
    {
        proof {
            use_type_invariant(self);
        }
        self.info.map_type
    }

    /// The maximum number of entries the map supports.
    pub fn max_entries(&self) -> (r: u32)
        ensures
            r == self@.max_entries,
    {
        self.info.max_entries
    }

    /// Update an element in the underlying eBPF map: the call that writes
    /// `value` under `key`. The flags go to the kernel as they are.
    pub fn update(&self, key: &K, value: &V, flags: MapFlags) -> (call: UpdateCall<K, V>)
        ensures
            call == (UpdateCall {
                fd: self@.map_fd,
                key: *key,
                value: *value,
                flags: flags.spec_bits(),
            }),
    {
        UpdateCall { fd: self.info.map_fd, key: *key, value: *value, flags: flags.bits() }
    }

    /// Reads the kernel's answer to an update.
    pub fn finish_update(&self, outcome: Outcome) -> (r: XDPResult<()>)
        ensures
            !outcome.failed() ==> r == Ok::<(), XDPError>(()),
            outcome.failed() ==> r is Err && r->Err_0.code() == reported_errno(outcome.errno)
                && r->Err_0.tells("Error updating elem"@),
    {
        outcome.check((), "Error updating elem")
    }

    /// Lookup an element from the underlying eBPF map: the call that reads
    /// the value under `key`.
    pub fn lookup(&self, key: &K) -> (call: LookupCall<K, V>)
        ensures
            call.fd == self@.map_fd,
            call.key == *key,
            call_ensures(V::default, (), call.value),
    {
        LookupCall { fd: self.info.map_fd, key: *key, value: V::default() }
    }

    /// Reads the kernel's answer to a lookup: the value that it wrote, or the
    /// error "Error looking up elem" with the kernel's error number.
    pub fn finish_lookup(&self, call: LookupCall<K, V>, outcome: Outcome) -> (r: XDPResult<
        MapValue<V>,
    >)
        ensures
            !outcome.failed() ==> r == Ok::<MapValue<V>, XDPError>(MapValue::Single(call.value)),
            outcome.failed() ==> r is Err && r->Err_0.code() == reported_errno(outcome.errno)
                && r->Err_0.tells("Error looking up elem"@),
    {
        outcome.check(MapValue::Single(call.value), "Error looking up elem")
    }

    /// Delete an element from the underlying eBPF map: the call that deletes
    /// `key`. Kinds of a fixed population do not support deletes: for them
    /// there is no call, but the error "invalid argument".
    pub fn delete(&self, key: &K) -> (r: XDPResult<DeleteCall<K>>)
        ensures
            self@.map_type.spec_is_array() ==> r is Err && r->Err_0.code() == EINVAL
                && r->Err_0.tells("Delete not supported on this map type"@),
            !self@.map_type.spec_is_array() ==> r == Ok::<DeleteCall<K>, XDPError>(
                DeleteCall { fd: self@.map_fd, key: *key },
            ),
    {
        self.info.delete(key)
    }

    /// Reads the kernel's answer to a delete.
    pub fn finish_delete(&self, outcome: Outcome) -> (r: XDPResult<()>)
        ensures
            !outcome.failed() ==> r == Ok::<(), XDPError>(()),
            outcome.failed() ==> r is Err && r->Err_0.code() == reported_errno(outcome.errno)
                && r->Err_0.tells("Error deleting elem"@),
    {
        outcome.check((), "Error deleting elem")
    }

    /// The call that asks for the key after `prev`, or for the first key of
    /// the map where `prev` is `None`.
    pub fn get_next_key(&self, prev: Option<K>) -> (call: NextKeyCall<K>)
        ensures
            call.fd == self@.map_fd,
            call.prev == prev,
            call_ensures(K::default, (), call.key),
    {
        NextKeyCall { fd: self.info.map_fd, prev, key: K::default() }
    }

    /// Reads the kernel's answer to a call for the next key: the key that it
    /// wrote, or the error "Error getting next key" with the kernel's error
    /// number.
    pub fn finish_get_next_key(&self, call: NextKeyCall<K>, outcome: Outcome) -> (r: XDPResult<K>)
        ensures
            !outcome.failed() ==> r == Ok::<K, XDPError>(call.key),
            outcome.failed() ==> r is Err && r->Err_0.code() == reported_errno(outcome.errno)
                && r->Err_0.tells("Error getting next key"@),
    {
        outcome.check(call.key, "Error getting next key")
    }

    /// Update a batch of elements in the underlying eBPF map. If the handle
    /// uses the batch calls, this is one call for all elements. Otherwise, it
    /// is equivalent to calling `update()` for every element, in their order,
    /// up to the first that fails. Keys and values of different numbers are
    /// refused with "invalid argument", and no call is made.
    pub fn update_batch(&self, keys: &Vec<K>, values: &Vec<V>, flags: MapFlags) -> (r: XDPResult<
        UpdatePlan,
    >)
        ensures
            keys@.len() != values@.len() ==> r is Err && r->Err_0.code() == EINVAL
                && r->Err_0.tells(count_mismatch_message(keys@.len(), values@.len())),
            keys@.len() == values@.len() ==> r is Ok && r->Ok_0@ == if self@.batching_support {
                PlanView::bulk(keys.len())
            } else {
                PlanView::one_by_one(keys.len())
            },
    {
        let num_keys: usize = keys.len();
        let num_vals: usize = values.len();
        if num_keys != num_vals {
            return Err(count_mismatch_error(num_keys, num_vals));
        }
        if self.update_batching_not_supported() {
            return Ok(UpdatePlan::one_by_one(num_keys));
        }
        Ok(UpdatePlan::bulk(num_keys))
    }

    /// The call that writes all of `keys` and `values` at once, each value
    /// under the key at its place.
    pub fn update_batch_impl(&self, keys: &Vec<K>, values: &Vec<V>, flags: MapFlags) -> (call:
        UpdateBatchCall<K, Vec<V>>)
        ensures
            call.fd == self@.map_fd,
            call.keys@ == keys@,
            call.values@ == values@,
            call.count == keys@.len() as u32,
            call.elem_flags == flags.spec_bits(),
    {
        UpdateBatchCall {
            fd: self.info.map_fd,
            keys: copy_vec(keys),
            values: copy_vec(values),
            count: #[verifier::truncate]
            (keys.len() as u32),
            elem_flags: flags.bits(),
        }
    }

    /// Reads the kernel's answer to an update of many elements at once: the
    /// number of elements that the kernel says it took, or the error "Error
    /// updating batch of elements" with the kernel's error number.
    pub fn finish_update_batch(&self, call: UpdateBatchCall<K, Vec<V>>, outcome: Outcome) -> (r:
        XDPResult<u32>)
        ensures
            !outcome.failed() ==> r == Ok::<u32, XDPError>(call.count),
            outcome.failed() ==> r is Err && r->Err_0.code() == reported_errno(outcome.errno)
                && r->Err_0.tells("Error updating batch of elements"@),
    {
        outcome.check(call.count, "Error updating batch of elements")
    }

    /// Lookup a batch of elements from the underlying eBPF map: the call that
    /// reads up to `batch_size` elements, going on from `next_key`, which is
    /// the key that came with the batch before, or `None` for the first
    /// batch. A handle without the batch calls has no such call, but the
    /// error "operation not supported": batches are not put together from
    /// single lookups.
    pub fn lookup_batch(&self, batch_size: u32, next_key: Option<u32>) -> (r: XDPResult<
        LookupBatchCall<K, Vec<V>>,
    >)
        ensures
            !self@.batching_support ==> r is Err && r->Err_0.code() == EOPNOTSUPP
                && r->Err_0.tells("Batching not supported"@),
            self@.batching_support ==> r is Ok && self.asks_for_batch(
                r->Ok_0,
                batch_size,
                next_key,
                false,
            ),
    {
        match self.info.may_lookup_batch(false) {
            Err(e) => Err(e),
            Ok(_) => Ok(self.lookup_batch_impl(batch_size, next_key, false)),
        }
    }

    /// Lookup and delete a batch of elements from the underlying eBPF map:
    /// as `lookup_batch`, with a call that also deletes what it reads. Kinds
    /// of a fixed population do not support deletes: for them there is no
    /// call, but the error "invalid argument".
    pub fn lookup_and_delete_batch(&self, batch_size: u32, next_key: Option<u32>) -> (r:
        XDPResult<LookupBatchCall<K, Vec<V>>>)
        ensures
            !self@.batching_support ==> r is Err && r->Err_0.code() == EOPNOTSUPP
                && r->Err_0.tells("Batching not supported"@),
            self@.batching_support && self@.map_type.spec_is_array() ==> r is Err
                && r->Err_0.code() == EINVAL && r->Err_0.tells(
                "Delete not supported on this map type"@,
            ),
            self@.batching_support && !self@.map_type.spec_is_array() ==> r is Ok
                && self.asks_for_batch(r->Ok_0, batch_size, next_key, true),
    {
        match self.info.may_lookup_batch(true) {
            Err(e) => Err(e),
            Ok(_) => Ok(self.lookup_batch_impl(batch_size, next_key, true)),
        }
    }

    /// True if `call` asks this map for a batch of up to `batch_size`
    /// elements, going on from `next_key`, with room for that many keys and
    /// values.
    pub open spec fn asks_for_batch(
        &self,
        call: LookupBatchCall<K, Vec<V>>,
        batch_size: u32,
        next_key: Option<u32>,
        delete: bool,
    ) -> bool {
        &&& call.fd == self@.map_fd
        &&& call.next_key == next_key
        &&& call.count == batch_size
        &&& call.delete == delete
        &&& call.nkey == 0
        &&& call.keys@.len() == batch_size
        &&& call.values@.len() == batch_size
    }

    /// The call that reads up to `batch_size` elements, whether the handle
    /// uses the batch calls or not: it is the call that finds out whether
    /// the kernel knows them.
    pub fn lookup_batch_impl(&self, batch_size: u32, next_key: Option<u32>, delete: bool) -> (call:
        LookupBatchCall<K, Vec<V>>)
        ensures
            self.asks_for_batch(call, batch_size, next_key, delete),
    {
        let keys: Vec<K> = vec![K::default(); batch_size as usize];
        let values: Vec<V> = vec![V::default(); batch_size as usize];
        LookupBatchCall {
            fd: self.info.map_fd,
            next_key,
            keys,
            values,
            count: batch_size,
            nkey: 0,
            delete,
        }
    }

    /// Reads the kernel's answer to a batch lookup. The kernel has written
    /// to `call.count` how many elements it handed over, which may be fewer
    /// than were asked for, and none; they are the items of the batch, the
    /// last first. A call that failed with "invalid argument" or "no more
    /// entries" is a clean end: it is no error, and there is no key to go on
    /// from. Any other failed call is the error "Error looking up batch of
    /// elements" with the kernel's error number.
    pub fn finish_lookup_batch(&self, call: LookupBatchCall<K, Vec<V>>, outcome: Outcome) -> (r:
        XDPResult<BatchResult<K, MapValue<V>>>)
        requires
            call.count <= call.keys@.len(),
            call.count <= call.values@.len(),
        ensures
            batch_went_through(outcome) ==> r is Ok && r->Ok_0.items@ == batch_items(
                call.keys@,
                call.values@,
                call.count as nat,
            ) && r->Ok_0.next_key == batch_cursor(outcome, call.nkey) && r->Ok_0.num_items
                == call.count,
            !batch_went_through(outcome) ==> r is Err && r->Err_0.code() == reported_errno(
                outcome.errno,
            ) && r->Err_0.tells("Error looking up batch of elements"@),
    {
        let mut call = call;
        let seen = match lookup_batch_prealloc(outcome, call.nkey, call.count) {
            Ok(seen) => seen,
            Err(e) => {
                return Err(e);
            },
        };
        let mut result: Vec<KeyValue<K, MapValue<V>>> = Vec::new();
        populate_batch_result(seen.num_items, &mut result, &mut call.keys, &mut call.values);
        Ok(BatchResult { items: result, next_key: seen.next_key, num_items: seen.num_items })
    }

    /// Returns all items in the map, as a walk for the caller to carry out.
    /// The walk goes key by key if the entries of the map can vanish, if the
    /// map has fewer than 50 entries, or if the handle does not use the batch
    /// calls; else batch by batch. Note that for Array type maps, this will
    /// always return `max_entries` number of items.
    pub fn items(&self) -> (walk: ItemsWalk<K, V>)
        ensures
            walk@ == if self@.map_type.spec_holds_references() || self@.max_entries
                < BATCH_MIN_ENTRIES || !self@.batching_support {
                WalkView::<K, V>::linear(self@.map_type.spec_holds_references())
            } else {
                WalkView::<K, V>::bulk()
            },
    {
        if self.info.map_type.holds_references() || self.info.max_entries < BATCH_MIN_ENTRIES
            || !self.info.batching_support {
            return self._items();
        }
        ItemsWalk::bulk()
    }

    /// All items in the map, key by key. Where the entries of the map can
    /// vanish, a key whose value cannot be read is passed over.
    pub fn _items(&self) -> (walk: ItemsWalk<K, V>)
        ensures
            walk@ == WalkView::<K, V>::linear(self@.map_type.spec_holds_references()),
    {
        ItemsWalk::linear(self.info.map_type.holds_references())
    }
}

/// What is written with `update` is what a lookup reads back: when the
/// kernel hands the value of the call that wrote `value` to the call that
/// looks it up, `finish_lookup` finds `value`.
pub proof fn lemma_update_lookup_round_trip<K, V>(
    written: UpdateCall<K, V>,
    read: LookupCall<K, V>,
    value: V,
)
    requires
        written.value == value,
        read.value == written.value,
    ensures
        MapValue::Single(read.value) == MapValue::Single(value),
        MapValue::Single(read.value).values() == seq![value],
{
}

} // verus!
