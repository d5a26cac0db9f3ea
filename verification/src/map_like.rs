use vstd::prelude::*;
use crate::byte_aligned::ByteAligned;
use crate::error::{reported_errno, XDPError};
use crate::items::{ItemsWalk, WalkView};
use crate::map::XDPMap;
use vstd::layout::size_of;
use crate::byte_aligned::aligned_size;
use crate::map_batch::{
    batch_cursor, batch_items, batch_went_through, BatchResult, BATCH_MIN_ENTRIES, EINVAL,
    EOPNOTSUPP,
};
use crate::map_common::KeyValue;
use crate::percpu_map::{
    lemma_per_cpu_round_trip, per_cpu_batch_items, replicated, replicated_all, slot_values,
};
use crate::map_common::{
    count_mismatch_message, DeleteCall, LookupBatchCall, LookupCall, MapInfo, MapValue,
    NextKeyCall, Outcome, UpdateBatchCall, UpdateCall,
};
use crate::map_flags::MapFlags;
use crate::map_types::MapType;
use crate::percpu_map::PerCpuMap;
use crate::result::XDPResult;
use crate::update_plan::{PlanView, UpdatePlan};

verus! {

/// This trait exposes the functionality of update/lookup/delete of underlying
/// eBPF maps: what the handles of shared and of per-CPU maps have in common.
/// The two differ in what the kernel reads and writes for a value, and in
/// when they go one by one; the walks and plans that an operation of many
/// calls follows are the same for both.
pub trait MapLike<K: Copy, V> {
    /// What the kernel reads and writes for one value.
    type Value;

    /// What the kernel reads and writes for the values of a batch.
    type Values;

    /// What the handle knows of its map.
    spec fn info(&self) -> MapInfo;

    /// True if updates of many elements go one by one.
    spec fn goes_one_by_one(&self) -> bool;

    /// True if all items are fetched key by key.
    spec fn walks_key_by_key(&self) -> bool;

    /// True if a walk passes over keys whose value cannot be read.
    spec fn passes_over_lost(&self) -> bool;

    /// True if the values of `n` elements fit into memory.
    spec fn has_room_for(&self, n: nat) -> bool;

    /// True if the buffer for values has room for the values of `n` elements.
    spec fn holds_values_of(&self, values: Self::Values, n: nat) -> bool;

    /// How many values the map keeps under one key.
    spec fn copies(&self) -> nat;

    /// True if `buffer` is what a lookup hands the kernel to write to: it
    /// has room for all that the map keeps under one key, and holds nothing
    /// yet.
    spec fn is_room(&self, buffer: Self::Value) -> bool;

    /// True if `sent` is what the kernel is to read for `value`.
    spec fn writes(&self, sent: Self::Value, value: V) -> bool;

    /// True if `r` is what a lookup finds in what the kernel wrote to `got`.
    spec fn reads(&self, got: Self::Value, r: MapValue<V>) -> bool;

    /// True if `sent` is what the kernel is to read for `values`.
    spec fn writes_all(&self, sent: Self::Values, values: Seq<V>) -> bool;

    /// True if `items` are the first `n` elements of what the kernel wrote
    /// to `keys` and `got`, the last of them first.
    spec fn reads_batch(
        &self,
        items: Seq<KeyValue<K, MapValue<V>>>,
        keys: Seq<K>,
        got: Self::Values,
        n: nat,
    ) -> bool;

    /// What is written is what is read back: when the kernel hands what was
    /// sent for `value` to a lookup, the lookup finds `value`, once for each
    /// value that the map keeps under one key.
    proof fn lemma_round_trip(&self, sent: Self::Value, value: V, r: MapValue<V>)
        requires
            self.writes(sent, value),
            self.reads(sent, r),
        ensures
            r.values() == Seq::new(self.copies(), |i: int| value),
    ;

    fn update_batching_not_supported(&self) -> (r: bool)
        ensures
            r == self.goes_one_by_one(),
    ;

    /// File descriptor for this map.
    fn map_fd(&self) -> (r: i32)
        ensures
            r == self.info().map_fd,
    ;

    fn map_type(&self) -> (r: MapType)
        ensures
            r == self.info().map_type,
    ;

    /// The maximum number of entries the map supports.
    fn max_entries(&self) -> (r: u32)
        ensures
            r == self.info().max_entries,
    ;

    /// Update an element in the underlying eBPF map: the call that does it.
    fn update(&self, key: &K, value: &V, flags: MapFlags) -> (call: UpdateCall<K, Self::Value>)
        ensures
            call.fd == self.info().map_fd,
            call.key == *key,
            self.writes(call.value, *value),
            call.flags == flags.spec_bits(),
    ;

    /// Reads the kernel's answer to an update.
    fn finish_update(&self, outcome: Outcome) -> (r: XDPResult<()>)
        ensures
            !outcome.failed() ==> r == Ok::<(), XDPError>(()),
            outcome.failed() ==> r is Err && r->Err_0.code() == reported_errno(outcome.errno)
                && r->Err_0.tells("Error updating elem"@),
    ;

    /// Lookup an element from the underlying eBPF map: the call that does it.
    fn lookup(&self, key: &K) -> (call: LookupCall<K, Self::Value>)
        requires
            self.has_room_for(1),
        ensures
            call.fd == self.info().map_fd,
            call.key == *key,
            self.is_room(call.value),
    ;

    /// Reads the kernel's answer to a lookup.
    fn finish_lookup(&self, call: LookupCall<K, Self::Value>, outcome: Outcome) -> (r: XDPResult<
        MapValue<V>,
    >)
        ensures
            !outcome.failed() ==> r is Ok && self.reads(call.value, r->Ok_0),
            outcome.failed() ==> r is Err && r->Err_0.code() == reported_errno(outcome.errno)
                && r->Err_0.tells("Error looking up elem"@),
    ;

    /// Delete an element from the underlying eBPF map: the call that does
    /// it, and none for a kind of a fixed population.
    fn delete(&self, key: &K) -> (r: XDPResult<DeleteCall<K>>)
        ensures
            self.info().map_type.spec_is_array() ==> r is Err && r->Err_0.code() == EINVAL
                && r->Err_0.tells("Delete not supported on this map type"@),
            !self.info().map_type.spec_is_array() ==> r == Ok::<DeleteCall<K>, XDPError>(
                DeleteCall { fd: self.info().map_fd, key: *key },
            ),
    ;

    /// Reads the kernel's answer to a delete.
    fn finish_delete(&self, outcome: Outcome) -> (r: XDPResult<()>)
        ensures
            !outcome.failed() ==> r == Ok::<(), XDPError>(()),
            outcome.failed() ==> r is Err && r->Err_0.code() == reported_errno(outcome.errno)
                && r->Err_0.tells("Error deleting elem"@),
    ;

    /// The call that asks for the key after `prev`, or for the first key.
    fn get_next_key(&self, prev: Option<K>) -> (call: NextKeyCall<K>)
        ensures
            call.fd == self.info().map_fd,
            call.prev == prev,
    ;

    /// Reads the kernel's answer to a call for the next key.
    fn finish_get_next_key(&self, call: NextKeyCall<K>, outcome: Outcome) -> (r: XDPResult<K>)
        ensures
            !outcome.failed() ==> r == Ok::<K, XDPError>(call.key),
            outcome.failed() ==> r is Err && r->Err_0.code() == reported_errno(outcome.errno)
                && r->Err_0.tells("Error getting next key"@),
    ;

    /// Update a batch of elements in the underlying eBPF map: in one call,
    /// or one by one.
    fn update_batch(&self, keys: &Vec<K>, values: &Vec<V>, flags: MapFlags) -> (r: XDPResult<
        UpdatePlan,
    >)
        ensures
            keys@.len() != values@.len() ==> r is Err && r->Err_0.code() == EINVAL
                && r->Err_0.tells(count_mismatch_message(keys@.len(), values@.len())),
            keys@.len() == values@.len() ==> r is Ok && r->Ok_0@ == if self.goes_one_by_one() {
                PlanView::one_by_one(keys.len())
            } else {
                PlanView::bulk(keys.len())
            },
    ;

    /// The call that writes all of `keys` and `values` at once.
    fn update_batch_impl(&self, keys: &Vec<K>, values: &Vec<V>, flags: MapFlags) -> (call:
        UpdateBatchCall<K, Self::Values>)
        ensures
            call.fd == self.info().map_fd,
            call.keys@ == keys@,
            self.writes_all(call.values, values@),
            call.count == keys@.len() as u32,
            call.elem_flags == flags.spec_bits(),
    ;

    /// Reads the kernel's answer to an update of many elements at once.
    fn finish_update_batch(&self, call: UpdateBatchCall<K, Self::Values>, outcome: Outcome) -> (r:
        XDPResult<u32>)
        ensures
            !outcome.failed() ==> r == Ok::<u32, XDPError>(call.count),
            outcome.failed() ==> r is Err && r->Err_0.code() == reported_errno(outcome.errno)
                && r->Err_0.tells("Error updating batch of elements"@),
    ;

    /// Lookup a batch of elements from the underlying eBPF map: the call
    /// that does it, and none without the batch calls.
    fn lookup_batch(&self, batch_size: u32, next_key: Option<u32>) -> (r: XDPResult<
        LookupBatchCall<K, Self::Values>,
    >)
        requires
            self.info().batching_support ==> self.has_room_for(batch_size as nat),
        ensures
            !self.info().batching_support ==> r is Err && r->Err_0.code() == EOPNOTSUPP
                && r->Err_0.tells("Batching not supported"@),
            self.info().batching_support ==> r is Ok && self.asks_for(
                r->Ok_0,
                batch_size,
                next_key,
                false,
            ),
    ;

    /// Lookup and delete a batch of elements from the underlying eBPF map:
    /// the call that does it, and none without the batch calls or for a kind
    /// of a fixed population.
    fn lookup_and_delete_batch(&self, batch_size: u32, next_key: Option<u32>) -> (r: XDPResult<
        LookupBatchCall<K, Self::Values>,
    >)
        requires
            self.info().batching_support && !self.info().map_type.spec_is_array()
                ==> self.has_room_for(batch_size as nat),
        ensures
            !self.info().batching_support ==> r is Err && r->Err_0.code() == EOPNOTSUPP
                && r->Err_0.tells("Batching not supported"@),
            self.info().batching_support && self.info().map_type.spec_is_array() ==> r is Err
                && r->Err_0.code() == EINVAL && r->Err_0.tells(
                "Delete not supported on this map type"@,
            ),
            self.info().batching_support && !self.info().map_type.spec_is_array() ==> r is Ok
                && self.asks_for(r->Ok_0, batch_size, next_key, true),
    ;

    /// The call that reads up to `batch_size` elements, whether the handle
    /// uses the batch calls or not.
    fn lookup_batch_impl(&self, batch_size: u32, next_key: Option<u32>, delete: bool) -> (call:
        LookupBatchCall<K, Self::Values>)
        requires
            self.has_room_for(batch_size as nat),
        ensures
            self.asks_for(call, batch_size, next_key, delete),
    ;

    /// True if `call` asks this map for a batch of up to `batch_size`
    /// elements, going on from `next_key`, with room for all of them.
    open spec fn asks_for(
        &self,
        call: LookupBatchCall<K, Self::Values>,
        batch_size: u32,
        next_key: Option<u32>,
        delete: bool,
    ) -> bool {
        &&& call.fd == self.info().map_fd
        &&& call.next_key == next_key
        &&& call.count == batch_size
        &&& call.delete == delete
        &&& call.nkey == 0
        &&& call.keys@.len() == batch_size
        &&& self.holds_values_of(call.values, batch_size as nat)
    }

    /// Reads the kernel's answer to a batch lookup: as many items as the
    /// kernel counted, the last element first, and the key to go on from.
    fn finish_lookup_batch(&self, call: LookupBatchCall<K, Self::Values>, outcome: Outcome) -> (r:
        XDPResult<BatchResult<K, MapValue<V>>>)
        requires
            call.count <= call.keys@.len(),
            self.holds_values_of(call.values, call.count as nat),
        ensures
            batch_went_through(outcome) ==> r is Ok && self.reads_batch(
                r->Ok_0.items@,
                call.keys@,
                call.values,
                call.count as nat,
            ) && r->Ok_0.next_key == batch_cursor(outcome, call.nkey) && r->Ok_0.num_items
                == call.count,
            !batch_went_through(outcome) ==> r is Err && r->Err_0.code() == reported_errno(
                outcome.errno,
            ) && r->Err_0.tells("Error looking up batch of elements"@),
    ;

    /// All items in the map, key by key.
    fn _items(&self) -> (walk: ItemsWalk<K, V>)
        ensures
            walk@ == WalkView::<K, V>::linear(self.passes_over_lost()),
    ;

    /// Returns all items in the map, as a walk for the caller to carry out.
    /// Note that for Array type maps, this will always return `max_entries`
    /// number of items.
    fn items(&self) -> (walk: ItemsWalk<K, V>)
        ensures
            walk@ == if self.walks_key_by_key() {
                WalkView::<K, V>::linear(self.passes_over_lost())
            } else {
                WalkView::<K, V>::bulk()
            },
    ;
}

impl<K: Default + Copy, V: Default + Copy> MapLike<K, V> for XDPMap<K, V> {
    type Value = V;

    type Values = Vec<V>;

    open spec fn info(&self) -> MapInfo {
        self@
    }

    open spec fn goes_one_by_one(&self) -> bool {
        !self@.batching_support
    }

    open spec fn walks_key_by_key(&self) -> bool {
        self@.map_type.spec_holds_references() || self@.max_entries < BATCH_MIN_ENTRIES
            || !self@.batching_support
    }

    open spec fn passes_over_lost(&self) -> bool {
        self@.map_type.spec_holds_references()
    }

    open spec fn has_room_for(&self, n: nat) -> bool {
        true
    }

    open spec fn holds_values_of(&self, values: Vec<V>, n: nat) -> bool {
        n <= values@.len()
    }

    open spec fn copies(&self) -> nat {
        1
    }

    open spec fn is_room(&self, buffer: V) -> bool {
        call_ensures(V::default, (), buffer)
    }

    open spec fn writes(&self, sent: V, value: V) -> bool {
        sent == value
    }

    open spec fn reads(&self, got: V, r: MapValue<V>) -> bool {
        r == MapValue::Single(got)
    }

    open spec fn writes_all(&self, sent: Vec<V>, values: Seq<V>) -> bool {
        sent@ == values
    }

    open spec fn reads_batch(
        &self,
        items: Seq<KeyValue<K, MapValue<V>>>,
        keys: Seq<K>,
        got: Vec<V>,
        n: nat,
    ) -> bool {
        items == batch_items(keys, got@, n)
    }

    proof fn lemma_round_trip(&self, sent: V, value: V, r: MapValue<V>) {
        assert(r.values() =~= Seq::new(1, |i: int| value));
    }

    fn update_batching_not_supported(&self) -> (r: bool) {
        XDPMap::update_batching_not_supported(self)
    }

    fn map_fd(&self) -> (r: i32) {
        XDPMap::map_fd(self)
    }

    fn map_type(&self) -> (r: MapType) {
        XDPMap::map_type(self)
    }

    fn max_entries(&self) -> (r: u32) {
        XDPMap::max_entries(self)
    }

    fn update(&self, key: &K, value: &V, flags: MapFlags) -> (call: UpdateCall<K, V>) {
        XDPMap::update(self, key, value, flags)
    }

    fn finish_update(&self, outcome: Outcome) -> (r: XDPResult<()>) {
        XDPMap::finish_update(self, outcome)
    }

    fn lookup(&self, key: &K) -> (call: LookupCall<K, V>) {
        XDPMap::lookup(self, key)
    }

    fn finish_lookup(&self, call: LookupCall<K, V>, outcome: Outcome) -> (r: XDPResult<
        MapValue<V>,
    >) {
        XDPMap::finish_lookup(self, call, outcome)
    }

    fn delete(&self, key: &K) -> (r: XDPResult<DeleteCall<K>>) {
        XDPMap::delete(self, key)
    }

    fn finish_delete(&self, outcome: Outcome) -> (r: XDPResult<()>) {
        XDPMap::finish_delete(self, outcome)
    }

    fn get_next_key(&self, prev: Option<K>) -> (call: NextKeyCall<K>) {
        XDPMap::get_next_key(self, prev)
    }

    fn finish_get_next_key(&self, call: NextKeyCall<K>, outcome: Outcome) -> (r: XDPResult<K>) {
        XDPMap::finish_get_next_key(self, call, outcome)
    }

    fn update_batch(&self, keys: &Vec<K>, values: &Vec<V>, flags: MapFlags) -> (r: XDPResult<
        UpdatePlan,
    >) {
        XDPMap::update_batch(self, keys, values, flags)
    }

    fn update_batch_impl(&self, keys: &Vec<K>, values: &Vec<V>, flags: MapFlags) -> (call:
        UpdateBatchCall<K, Vec<V>>) {
        XDPMap::update_batch_impl(self, keys, values, flags)
    }

    fn finish_update_batch(&self, call: UpdateBatchCall<K, Vec<V>>, outcome: Outcome) -> (r:
        XDPResult<u32>) {
        XDPMap::finish_update_batch(self, call, outcome)
    }

    fn lookup_batch(&self, batch_size: u32, next_key: Option<u32>) -> (r: XDPResult<
        LookupBatchCall<K, Vec<V>>,
    >) {
        XDPMap::lookup_batch(self, batch_size, next_key)
    }

    fn lookup_and_delete_batch(&self, batch_size: u32, next_key: Option<u32>) -> (r: XDPResult<
        LookupBatchCall<K, Vec<V>>,
    >) {
        XDPMap::lookup_and_delete_batch(self, batch_size, next_key)
    }

    fn lookup_batch_impl(&self, batch_size: u32, next_key: Option<u32>, delete: bool) -> (call:
        LookupBatchCall<K, Vec<V>>) {
        XDPMap::lookup_batch_impl(self, batch_size, next_key, delete)
    }

    fn finish_lookup_batch(&self, call: LookupBatchCall<K, Vec<V>>, outcome: Outcome) -> (r:
        XDPResult<BatchResult<K, MapValue<V>>>) {
        XDPMap::finish_lookup_batch(self, call, outcome)
    }

    fn _items(&self) -> (walk: ItemsWalk<K, V>) {
        XDPMap::_items(self)
    }

    fn items(&self) -> (walk: ItemsWalk<K, V>) {
        XDPMap::items(self)
    }
}

impl<K: Default + Copy, V: ByteAligned> MapLike<K, V> for PerCpuMap<K, V> {
    type Value = Vec<u8>;

    type Values = Vec<u8>;

    open spec fn info(&self) -> MapInfo {
        self@.map
    }

    open spec fn goes_one_by_one(&self) -> bool {
        self@.map.map_type.spec_is_array() || !self@.map.batching_support
    }

    open spec fn walks_key_by_key(&self) -> bool {
        self@.map.map_type.spec_is_array() || self@.map.max_entries < BATCH_MIN_ENTRIES
            || !self@.map.batching_support
    }

    open spec fn passes_over_lost(&self) -> bool {
        false
    }

    open spec fn has_room_for(&self, n: nat) -> bool {
        n * (self@.num_cpus * self@.value_size) <= usize::MAX
    }

    open spec fn holds_values_of(&self, values: Vec<u8>, n: nat) -> bool {
        n * (self@.num_cpus * self@.value_size) <= values@.len()
    }

    open spec fn copies(&self) -> nat {
        self@.num_cpus as nat
    }

    open spec fn is_room(&self, buffer: Vec<u8>) -> bool {
        buffer@ == Seq::new((self@.num_cpus * self@.value_size) as nat, |i: int| 0u8)
    }

    open spec fn writes(&self, sent: Vec<u8>, value: V) -> bool {
        sent@ == replicated(value.spec_align(), self@.num_cpus as nat)
    }

    open spec fn reads(&self, got: Vec<u8>, r: MapValue<V>) -> bool {
        r is Multi && r.values() == slot_values::<V>(got@, aligned_size(size_of::<V>()))
    }

    open spec fn writes_all(&self, sent: Vec<u8>, values: Seq<V>) -> bool {
        sent@ == replicated_all(values, self@.num_cpus as nat)
    }

    open spec fn reads_batch(
        &self,
        items: Seq<KeyValue<K, MapValue<V>>>,
        keys: Seq<K>,
        got: Vec<u8>,
        n: nat,
    ) -> bool {
        per_cpu_batch_items(
            items,
            keys,
            got@,
            n,
            self@.num_cpus as nat,
            aligned_size(size_of::<V>()),
        )
    }

    proof fn lemma_round_trip(&self, sent: Vec<u8>, value: V, r: MapValue<V>) {
        lemma_per_cpu_round_trip(value, self@.num_cpus as nat);
    }

    fn update_batching_not_supported(&self) -> (r: bool) {
        PerCpuMap::update_batching_not_supported(self)
    }

    fn map_fd(&self) -> (r: i32) {
        PerCpuMap::map_fd(self)
    }

    fn map_type(&self) -> (r: MapType) {
        PerCpuMap::map_type(self)
    }

    fn max_entries(&self) -> (r: u32) {
        PerCpuMap::max_entries(self)
    }

    fn update(&self, key: &K, value: &V, flags: MapFlags) -> (call: UpdateCall<K, Vec<u8>>) {
        PerCpuMap::update(self, key, value, flags)
    }

    fn finish_update(&self, outcome: Outcome) -> (r: XDPResult<()>) {
        PerCpuMap::finish_update(self, outcome)
    }

    fn lookup(&self, key: &K) -> (call: LookupCall<K, Vec<u8>>) {
        PerCpuMap::lookup(self, key)
    }

    fn finish_lookup(&self, call: LookupCall<K, Vec<u8>>, outcome: Outcome) -> (r: XDPResult<
        MapValue<V>,
    >) {
        PerCpuMap::finish_lookup(self, call, outcome)
    }

    fn delete(&self, key: &K) -> (r: XDPResult<DeleteCall<K>>) {
        PerCpuMap::delete(self, key)
    }

    fn finish_delete(&self, outcome: Outcome) -> (r: XDPResult<()>) {
        PerCpuMap::finish_delete(self, outcome)
    }

    fn get_next_key(&self, prev: Option<K>) -> (call: NextKeyCall<K>) {
        PerCpuMap::get_next_key(self, prev)
    }

    fn finish_get_next_key(&self, call: NextKeyCall<K>, outcome: Outcome) -> (r: XDPResult<K>) {
        PerCpuMap::finish_get_next_key(self, call, outcome)
    }

    fn update_batch(&self, keys: &Vec<K>, values: &Vec<V>, flags: MapFlags) -> (r: XDPResult<
        UpdatePlan,
    >) {
        PerCpuMap::update_batch(self, keys, values, flags)
    }

    fn update_batch_impl(&self, keys: &Vec<K>, values: &Vec<V>, flags: MapFlags) -> (call:
        UpdateBatchCall<K, Vec<u8>>) {
        PerCpuMap::update_batch_impl(self, keys, values, flags)
    }

    fn finish_update_batch(&self, call: UpdateBatchCall<K, Vec<u8>>, outcome: Outcome) -> (r:
        XDPResult<u32>) {
        PerCpuMap::finish_update_batch(self, call, outcome)
    }

    fn lookup_batch(&self, batch_size: u32, next_key: Option<u32>) -> (r: XDPResult<
        LookupBatchCall<K, Vec<u8>>,
    >) {
        PerCpuMap::lookup_batch(self, batch_size, next_key)
    }

    fn lookup_and_delete_batch(&self, batch_size: u32, next_key: Option<u32>) -> (r: XDPResult<
        LookupBatchCall<K, Vec<u8>>,
    >) {
        PerCpuMap::lookup_and_delete_batch(self, batch_size, next_key)
    }

    fn lookup_batch_impl(&self, batch_size: u32, next_key: Option<u32>, delete: bool) -> (call:
        LookupBatchCall<K, Vec<u8>>) {
        PerCpuMap::lookup_batch_impl(self, batch_size, next_key, delete)
    }

    fn finish_lookup_batch(&self, call: LookupBatchCall<K, Vec<u8>>, outcome: Outcome) -> (r:
        XDPResult<BatchResult<K, MapValue<V>>>) {
        PerCpuMap::finish_lookup_batch(self, call, outcome)
    }

    fn _items(&self) -> (walk: ItemsWalk<K, V>) {
        PerCpuMap::_items(self)
    }

    fn items(&self) -> (walk: ItemsWalk<K, V>) {
        PerCpuMap::items(self)
    }
}

} // verus!
