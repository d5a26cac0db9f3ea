use std::marker::PhantomData;
use vstd::layout::size_of;
use vstd::prelude::*;
use vstd::slice::slice_subrange;
use crate::byte_aligned::{aligned_size, ByteAligned};
use crate::error::{reported_errno, XDPError};
use crate::items::{ItemsWalk, WalkView};
use crate::map_batch::{
    batch_cursor, batch_went_through, lookup_batch_prealloc, BatchResult, BATCH_MIN_ENTRIES,
    EINVAL, EOPNOTSUPP,
};
use crate::map_common::{
    copy_vec, count_mismatch_error, count_mismatch_message, key_size_error, key_size_message,
    no_such_map_message, validate_map, value_size_error, value_size_message, CreateCall,
    Creation, DeleteCall, KeyValue, LookupBatchCall, LookupCall, MapDescriptor, MapInfo,
    MapValue, NextKeyCall, Outcome, UpdateBatchCall, UpdateCall,
};
use crate::map_flags::MapFlags;
use crate::map_types::{map_type_of, MapType};
use crate::result::XDPResult;
use crate::update_plan::{PlanView, UpdatePlan};

verus! {

/// Rounds a value size up to the next multiple of 8 bytes, the size of the
/// slot that the kernel keeps for each CPU.
pub fn align(v: u32) -> (r: usize)
    requires
        v <= u32::MAX - 7,
    ensures
        r == aligned_size(v as nat),
{
    (((v + 7) / 8) * 8) as usize
}

/// `slot`, `n` times over: the buffer that writes one value for every CPU.
pub open spec fn replicated(slot: Seq<u8>, n: nat) -> Seq<u8>
    decreases n,
{
    if n == 0 {
        Seq::empty()
    } else {
        replicated(slot, (n - 1) as nat) + slot
    }
}

/// The `i`-th slot of `size` bytes in a flat buffer.
pub open spec fn slot_at(flat: Seq<u8>, size: nat, i: int) -> Seq<u8> {
    flat.subrange(i * size, (i + 1) * size)
}

/// The values in a flat buffer of slots of `size` bytes, in the buffer's
/// order; bytes after the last whole slot are left out.
pub open spec fn slot_values<V: ByteAligned>(flat: Seq<u8>, size: nat) -> Seq<V> {
    Seq::new((flat.len() / size) as nat, |i: int| V::spec_from_aligned(slot_at(flat, size, i)))
}

/// The buffer that writes `value` to a per-CPU map: its slot, once for each
/// of the `num_cpus` possible CPUs.
pub fn encode_per_cpu<V: ByteAligned>(value: V, num_cpus: usize) -> (flat: Vec<u8>)
    ensures
        flat@ == replicated(value.spec_align(), num_cpus as nat),
{
    let mut flat: Vec<u8> = Vec::new();
    let mut cpu: usize = 0;
    while cpu < num_cpus
        invariant
            cpu <= num_cpus,
            flat@ == replicated(value.spec_align(), cpu as nat),
        decreases num_cpus - cpu,
    {
        let mut slot = value.align();
        flat.append(&mut slot);
        cpu += 1;
    }
    flat
}

/// The values that a per-CPU map handed back in a flat buffer: one for each
/// whole slot of `value_size` bytes, in the order of the CPUs.
pub fn decode_per_cpu<V: ByteAligned>(flat: &[u8], value_size: usize) -> (values: Vec<V>)
    requires
        value_size == aligned_size(size_of::<V>()),
    ensures
        values@ == slot_values::<V>(flat@, value_size as nat),
{
    proof {
        V::lemma_slot(arbitrary());
    }
    let count: usize = flat.len() / value_size;
    let mut values: Vec<V> = Vec::new();
    let mut i: usize = 0;
    while i < count
        invariant
            value_size == aligned_size(size_of::<V>()),
            value_size > 0,
            count == flat@.len() / (value_size as nat),
            flat@.len() <= usize::MAX,
            i <= count,
            values@ == Seq::new(
                i as nat,
                |j: int| V::spec_from_aligned(slot_at(flat@, value_size as nat, j)),
            ),
        decreases count - i,
    {
        proof {
            lemma_slot_in_bounds(flat@.len(), value_size as nat, i as int);
        }
        let chunk = slice_subrange(flat, i * value_size, (i + 1) * value_size);
        let value = V::from_aligned(chunk);
        values.push(value);
        i += 1;
        assert(values@ =~= Seq::new(
            i as nat,
            |j: int| V::spec_from_aligned(slot_at(flat@, value_size as nat, j)),
        ));
    }
    values
}

/// A slot that is counted lies inside the buffer.
pub proof fn lemma_slot_in_bounds(len: nat, size: nat, i: int)
    requires
        size > 0,
        0 <= i < len / size,
    ensures
        0 <= i * size,
        (i + 1) * size == i * size + size,
        (i + 1) * size <= len,
{
    assert(0 <= i * size) by (nonlinear_arith)
        requires
            0 <= i,
    ;
    assert((i + 1) * size == i * size + size) by (nonlinear_arith);
    assert((i + 1) * size <= len) by (nonlinear_arith)
        requires
            size > 0,
            i + 1 <= len / size,
    ;
}

/// The buffer for `n` CPUs is `n` slots long, and each slot in it is `slot`.
pub proof fn lemma_replicated(slot: Seq<u8>, n: nat)
    ensures
        replicated(slot, n).len() == n * slot.len(),
        forall|i: int| 0 <= i < n ==> #[trigger] slot_at(replicated(slot, n), slot.len(), i) == slot,
    decreases n,
{
    if n == 0 {
        assert(0 * slot.len() == 0) by (nonlinear_arith);
    } else {
        let m = (n - 1) as nat;
        lemma_replicated(slot, m);
        let head = replicated(slot, m);
        let all = replicated(slot, n);
        assert(n * slot.len() == m * slot.len() + slot.len()) by (nonlinear_arith)
            requires
                n == m + 1,
        ;
        assert forall|i: int| 0 <= i < n implies #[trigger] slot_at(all, slot.len(), i)
            == slot by {
            assert(0 <= i * slot.len()) by (nonlinear_arith)
                requires
                    0 <= i,
            ;
            assert((i + 1) * slot.len() == i * slot.len() + slot.len()) by (nonlinear_arith);
            if i < m {
                assert((i + 1) * slot.len() <= m * slot.len()) by (nonlinear_arith)
                    requires
                        i + 1 <= m,
                ;
                assert(slot_at(all, slot.len(), i) =~= slot_at(head, slot.len(), i));
            } else {
                assert(slot_at(all, slot.len(), i) =~= slot);
            }
        }
    }
}

/// What was written for every CPU is read back for every CPU: decoding the
/// buffer that encodes `value` for `num_cpus` CPUs gives `value`, `num_cpus`
/// times.
pub proof fn lemma_per_cpu_round_trip<V: ByteAligned>(value: V, num_cpus: nat)
    ensures
        slot_values::<V>(
            replicated(value.spec_align(), num_cpus),
            aligned_size(size_of::<V>()),
        ) == Seq::new(num_cpus, |i: int| value),
        replicated(value.spec_align(), num_cpus).len() == num_cpus * value.spec_align().len(),
        value.spec_align().len() == aligned_size(size_of::<V>()),
        value.spec_align().len() % 8 == 0,
{
    value.lemma_slot();
    let slot = value.spec_align();
    let size = aligned_size(size_of::<V>());
    lemma_replicated(slot, num_cpus);
    let flat = replicated(slot, num_cpus);
    assert(flat.len() / size == num_cpus) by (nonlinear_arith)
        requires
            flat.len() == num_cpus * size,
            size > 0,
    ;
    assert(slot_values::<V>(flat, size) =~= Seq::new(num_cpus, |i: int| value));
}

/// The buffer that writes `values` to a per-CPU map in one call: for each
/// value in turn, its slot once for each CPU.
pub open spec fn replicated_all<V: ByteAligned>(values: Seq<V>, num_cpus: nat) -> Seq<u8>
    decreases values.len(),
{
    if values.len() == 0 {
        Seq::empty()
    } else {
        replicated_all(values.drop_last(), num_cpus) + replicated(
            values.last().spec_align(),
            num_cpus,
        )
    }
}

/// The part of a batch's flat buffer that holds the element `i`: one slot of
/// `size` bytes for each of the `num_cpus` CPUs.
pub open spec fn element_at(flat: Seq<u8>, num_cpus: nat, size: nat, i: int) -> Seq<u8> {
    flat.subrange(i * (num_cpus * size), (i + 1) * (num_cpus * size))
}

/// True if `items` are the first `n` elements of a batch whose keys the
/// kernel wrote to `keys` and whose values it wrote to `flat`, the last
/// element first: each item has the values of all CPUs under its key, in the
/// order of the CPUs.
pub open spec fn per_cpu_batch_items<K, V: ByteAligned>(
    items: Seq<KeyValue<K, MapValue<V>>>,
    keys: Seq<K>,
    flat: Seq<u8>,
    n: nat,
    num_cpus: nat,
    size: nat,
) -> bool {
    &&& items.len() == n
    &&& forall|j: int|
        0 <= j < n ==> {
            &&& (#[trigger] items[j]).key == keys[n - 1 - j]
            &&& items[j].value is Multi
            &&& items[j].value.values() == slot_values::<V>(
                element_at(flat, num_cpus, size, n - 1 - j),
                size,
            )
        }
}

/// What a handle knows of its per-CPU map.
#[derive(Copy, Clone, Debug, PartialEq, Eq, Structural)]
pub struct PerCpuInfo {
    pub map: MapInfo,
    /// The size of the slot that holds one value for one CPU.
    pub value_size: usize,
    /// The number of possible CPUs (not online CPUs).
    pub num_cpus: usize,
}

/// Used for working with per-cpu eBPF maps, which hold under each key one
/// value for each possible CPU. The handle settles which kernel call an
/// operation takes, packs what the kernel is to read and unpacks what it
/// wrote; the caller makes the call.
pub struct PerCpuMap<K, V> {
    info: PerCpuInfo,
    _key: PhantomData<K>,
    _val: PhantomData<V>,
}

impl<K, V> View for PerCpuMap<K, V> {
    type V = PerCpuInfo;

    closed spec fn view(&self) -> PerCpuInfo {
        self.info
    }
}

impl<K, V> PerCpuMap<K, V> {
    /// Every handle stands for a map of a per-CPU kind, and has slots of the
    /// size of `V` rounded up to 8 bytes.
    #[verifier::type_invariant]
    spec fn slots_fit(self) -> bool {
        &&& self.info.map.map_type.spec_is_per_cpu()
        &&& self.info.value_size == aligned_size(size_of::<V>())
    }
}

impl<K: Default + Copy, V: ByteAligned> PerCpuMap<K, V> {
    /// The size of the slot that holds one value for one CPU: the size of
    /// `V` rounded up to 8 bytes.
    pub fn value_size(&self) -> (r: usize)
        ensures
            r == self@.value_size,
            r == aligned_size(size_of::<V>()),
    {
        proof {
            use_type_invariant(self);
        }
        self.info.value_size
    }

    /// Create a new map: checks the kind and the sizes, and hands back the
    /// call that makes the map. Kinds that are not per-CPU are refused here,
    /// with "invalid argument"; so are sizes that are not those of `K` and
    /// `V`. `num_cpus` is the number of possible CPUs; with
    /// `batching_support` the handle will use the kernel's batch calls.
    pub fn create(
        map_type: MapType,
        key_size: u32,
        value_size: u32,
        max_entries: u32,
        map_flags: u32,
        num_cpus: usize,
        batching_support: bool,
    ) -> (r: XDPResult<Creation<PerCpuMap<K, V>>>)
        ensures
            !map_type.spec_is_per_cpu() ==> r is Err && r->Err_0.code() == EINVAL
                && r->Err_0.tells("Improper map type, use rxdp::Map::create"@),
            map_type.spec_is_per_cpu() && key_size != size_of::<K>() ==> r is Err
                && r->Err_0.tells(key_size_message(key_size, size_of::<K>())),
            map_type.spec_is_per_cpu() && key_size == size_of::<K>() && value_size != size_of::<
                V,
            >() ==> r is Err && r->Err_0.tells(value_size_message(value_size, size_of::<V>())),
            map_type.spec_is_per_cpu() && key_size == size_of::<K>() && value_size == size_of::<
                V,
            >() ==> r is Ok && r->Ok_0.spec_call() == (CreateCall {
                map_type,
                key_size,
                value_size,
                max_entries,
                map_flags,
            }) && r->Ok_0.spec_map()@ == (PerCpuInfo {
                map: MapInfo { map_fd: -1i32, map_type, max_entries, batching_support },
                value_size: aligned_size(value_size as nat) as usize,
                num_cpus,
            }),
    {
        if !map_type.is_per_cpu() {
            return Err(XDPError::raise(EINVAL, "Improper map type, use rxdp::Map::create"));
        }
        if core::mem::size_of::<K>() != key_size as usize {
            return Err(key_size_error(key_size, core::mem::size_of::<K>()));
        }
        if core::mem::size_of::<V>() != value_size as usize {
            return Err(value_size_error(value_size, core::mem::size_of::<V>()));
        }
        proof {
            V::lemma_slot(arbitrary());
        }
        let call = CreateCall { map_type, key_size, value_size, max_entries, map_flags };
        let map = PerCpuMap {
            info: PerCpuInfo {
                map: MapInfo { map_fd: -1, map_type, max_entries, batching_support },
                value_size: align(value_size),
                num_cpus,
            },
            _key: PhantomData,
            _val: PhantomData,
        };
        Ok(Creation::new(call, map))
    }

    /// Reads the kernel's answer to the call that makes the map: the handle
    /// with the descriptor that the kernel returned, or the error "Error
    /// creating new map" with the kernel's error number.
    pub fn finish_create(creation: Creation<PerCpuMap<K, V>>, outcome: Outcome) -> (r: XDPResult<
        PerCpuMap<K, V>,
    >)
        ensures
            !outcome.failed() ==> r is Ok && r->Ok_0@ == (PerCpuInfo {
                map: MapInfo { map_fd: outcome.rc, ..creation.spec_map()@.map },
                ..creation.spec_map()@
            }),
            outcome.failed() ==> r is Err && r->Err_0.code() == reported_errno(outcome.errno)
                && r->Err_0.tells("Error creating new map"@),
    {
        let pending = creation.into_map();
        proof {
            use_type_invariant(&pending);
        }
        let m = PerCpuMap {
            info: PerCpuInfo {
                map: MapInfo { map_fd: outcome.rc, ..pending.info.map },
                ..pending.info
            },
            _key: PhantomData,
            _val: PhantomData,
        };
        outcome.check(m, "Error creating new map")
    }

    /// Get access to the eBPF map `map_name`, of which the loader found
    /// `found`. This will fail if the map is not there, if it is not of a
    /// per-CPU kind, or if the requested key/value sizes don't match the
    /// key/value sizes of the map.
    pub fn new(
        found: Option<MapDescriptor>,
        map_name: &str,
        num_cpus: usize,
        batching_support: bool,
    ) -> (r: XDPResult<PerCpuMap<K, V>>)
        ensures
            match found {
                Some(d) if d.map_fd >= 0 => if d.key_size != size_of::<K>() {
                    r is Err && r->Err_0.tells(key_size_message(d.key_size, size_of::<K>()))
                } else if !map_type_of(d.map_type).spec_is_per_cpu() {
                    r is Err && r->Err_0.code() == EINVAL && r->Err_0.tells(
                        "Improper map type, use rxdp::Map::new"@,
                    )
                } else if d.value_size != size_of::<V>() {
                    r is Err && r->Err_0.tells(value_size_message(d.value_size, size_of::<V>()))
                } else {
                    r is Ok && r->Ok_0@ == (PerCpuInfo {
                        map: MapInfo {
                            map_fd: d.map_fd,
                            map_type: map_type_of(d.map_type),
                            max_entries: d.max_entries,
                            batching_support,
                        },
                        value_size: aligned_size(size_of::<V>()) as usize,
                        num_cpus,
                    })
                },
                _ => r is Err && r->Err_0.tells(no_such_map_message(map_name@)),
            },
    {
        let (map_fd, vsize, mtype, max_entries) = match validate_map::<K>(found, map_name) {
            Ok(t) => t,
            Err(e) => {
                return Err(e);
            },
        };
        let map_type = MapType::from(mtype);
        if !map_type.is_per_cpu() {
            return Err(XDPError::raise(EINVAL, "Improper map type, use rxdp::Map::new"));
        }
        let req_val_size: usize = core::mem::size_of::<V>();
        if req_val_size != vsize as usize {
            return Err(value_size_error(vsize, req_val_size));
        }
        proof {
            V::lemma_slot(arbitrary());
        }
        Ok(
            PerCpuMap {
                info: PerCpuInfo {
                    map: MapInfo { map_fd, map_type, max_entries, batching_support },
                    value_size: align(vsize),
                    num_cpus,
                },
                _key: PhantomData,
                _val: PhantomData,
            },
        )
    }
}

/// An element that is counted lies inside the buffer.
pub proof fn lemma_element_in_bounds(len: nat, stride: nat, n: nat, i: int)
    requires
        n * stride <= len,
        0 <= i < n,
    ensures
        0 <= i * stride,
        (i + 1) * stride == i * stride + stride,
        (i + 1) * stride <= len,
        stride <= len,
{
    assert(0 <= i * stride) by (nonlinear_arith)
        requires
            0 <= i,
    ;
    assert((i + 1) * stride == i * stride + stride) by (nonlinear_arith);
    assert((i + 1) * stride <= n * stride) by (nonlinear_arith)
        requires
            i + 1 <= n,
    ;
}

/// Moves the first `n` elements of a batch from the buffers to `result`, the
/// last of them first, each with the values of all CPUs in the order of the
/// CPUs. The keys that were not used stay in `keys`; `vals` keeps the
/// bytes of the `n` elements and no more.
pub fn populate_batch_result<K: Copy, V: ByteAligned>(
    n: u32,
    result: &mut Vec<KeyValue<K, MapValue<V>>>,
    keys: &mut Vec<K>,
    vals: &mut Vec<u8>,
    value_size: usize,
    num_cpus: usize,
)
    requires
        value_size == aligned_size(size_of::<V>()),
        n <= old(keys)@.len(),
        n * (num_cpus * value_size) <= old(vals)@.len(),
    ensures
        final(result)@.len() == old(result)@.len() + n,
        final(result)@.take(old(result)@.len() as int) == old(result)@,
        per_cpu_batch_items(
            final(result)@.skip(old(result)@.len() as int),
            old(keys)@,
            old(vals)@,
            n as nat,
            num_cpus as nat,
            value_size as nat,
        ),
        final(keys)@ == old(keys)@.skip(n as int),
        final(vals)@ == old(vals)@.take(n * (num_cpus * value_size)),
{
    let count: usize = n as usize;
    let room: usize = vals.len();
    if count == 0 {
        vals.truncate(0);
        assert(n * (num_cpus * value_size) == 0) by (nonlinear_arith)
            requires
                n == 0,
        ;
        assert(vals@ =~= old(vals)@.take(0));
        assert(result@.take(result@.len() as int) =~= result@);
        assert(keys@.skip(0) =~= keys@);
        return ;
    }
    proof {
        lemma_element_in_bounds(
            vals@.len(),
            (num_cpus * value_size) as nat,
            count as nat,
            count - 1,
        );
    }
    let stride: usize = num_cpus * value_size;
    let ghost before = result@;
    let ghost filled = vals@;
    let mut i: usize = count;
    while i > 0
        invariant
            i <= count,
            count == n,
            count <= keys@.len(),
            keys@ == old(keys)@,
            vals@ == filled,
            filled == old(vals)@,
            before == old(result)@,
            value_size == aligned_size(size_of::<V>()),
            stride == num_cpus * value_size,
            count * stride <= filled.len(),
            filled.len() == room,
            result@.len() == before.len() + (count - i),
            result@.take(before.len() as int) == before,
            forall|j: int|
                0 <= j < count - i ==> {
                    &&& (#[trigger] result@[before.len() + j]).key == keys@[count - 1 - j]
                    &&& result@[before.len() + j].value is Multi
                    &&& result@[before.len() + j].value.values() == slot_values::<V>(
                        element_at(filled, num_cpus as nat, value_size as nat, count - 1 - j),
                        value_size as nat,
                    )
                },
        decreases i,
    {
        let e: usize = i - 1;
        proof {
            lemma_element_in_bounds(filled.len(), stride as nat, count as nat, e as int);
        }
        let bytes = slice_subrange(vals.as_slice(), e * stride, (e + 1) * stride);
        let values: Vec<V> = decode_per_cpu(bytes, value_size);
        let ghost had = result@;
        result.push(KeyValue { key: keys[e], value: MapValue::Multi(values) });
        i -= 1;
        assert(result@.take(before.len() as int) =~= had.take(before.len() as int));
        assert forall|j: int| 0 <= j < count - i implies {
            &&& (#[trigger] result@[before.len() + j]).key == keys@[count - 1 - j]
            &&& result@[before.len() + j].value is Multi
            &&& result@[before.len() + j].value.values() == slot_values::<V>(
                element_at(filled, num_cpus as nat, value_size as nat, count - 1 - j),
                value_size as nat,
            )
        } by {
            if j < count - i - 1 {
                assert(result@[before.len() + j] == had[before.len() + j]);
            }
        }
    }
    vals.truncate(count * stride);
    let rest = keys.split_off(count);
    *keys = rest;
    assert forall|j: int| 0 <= j < n implies {
        &&& (#[trigger] result@.skip(before.len() as int)[j]).key == old(keys)@[n - 1 - j]
        &&& result@.skip(before.len() as int)[j].value is Multi
        &&& result@.skip(before.len() as int)[j].value.values() == slot_values::<V>(
            element_at(old(vals)@, num_cpus as nat, value_size as nat, n - 1 - j),
            value_size as nat,
        )
    } by {
        assert(result@.skip(before.len() as int)[j] == result@[before.len() + j]);
    }
}

impl<K: Default + Copy, V: ByteAligned> PerCpuMap<K, V> {
    /// True if the handle uses the kernel's batch calls.
    pub fn batching_supported(&self) -> (r: bool)
        ensures
            r == self@.map.batching_support,
    {
        self.info.map.batching_support
    }

    /// True if updates of many elements go one by one: the batch calls are
    /// not used on per-CPU maps of a fixed population.
    pub fn update_batching_not_supported(&self) -> (r: bool)
        ensures
            r == (self@.map.map_type.spec_is_array() || !self@.map.batching_support),
    {
        self.info.map.map_type.is_array() || !self.info.map.batching_support
    }

    /// File descriptor for this map.
    pub fn map_fd(&self) -> (r: i32)
        ensures
            r == self@.map.map_fd,
    {
        self.info.map.map_fd
    }

    /// The kind of the map, which is one of the per-CPU kinds.
    pub fn map_type(&self) -> (r: MapType)
        ensures
            r == self@.map.map_type,
            r.spec_is_per_cpu(),
    {
        proof {
            use_type_invariant(self);
        }
        self.info.map.map_type
    }

    /// The maximum number of entries the map supports.
    pub fn max_entries(&self) -> (r: u32)
        ensures
            r == self@.map.max_entries,
    {
        self.info.map.max_entries
    }

    /// The number of possible CPUs that the handle works with.
    pub fn num_cpus(&self) -> (r: usize)
        ensures
            r == self@.num_cpus,
    {
        self.info.num_cpus
    }

    /// Update an element in the underlying eBPF map: the call that writes
    /// `value` under `key` for every CPU. The flags go to the kernel as they
    /// are.
    pub fn update(&self, key: &K, value: &V, flags: MapFlags) -> (call: UpdateCall<K, Vec<u8>>)
        ensures
            call.fd == self@.map.map_fd,
            call.key == *key,
            call.value@ == replicated(value.spec_align(), self@.num_cpus as nat),
            call.flags == flags.spec_bits(),
    {
        UpdateCall {
            fd: self.info.map.map_fd,
            key: *key,
            value: encode_per_cpu(*value, self.info.num_cpus),
            flags: flags.bits(),
        }
    }

    /// Reads the kernel's answer to an update.
    pub fn finish_update(&self, outcome: Outcome) -> (r: XDPResult<()>)
        ensures
            !outcome.failed() ==> r == Ok::<(), XDPError>(()),
            outcome.failed() ==> r is Err && r->Err_0.code() == reported_errno(outcome.errno)
                && r->Err_0.tells("Error updating elem"@),
    {
        outcome.check((), "Error updating elem")
    }

    /// Lookup an element from the underlying eBPF map: the call that reads
    /// the values under `key`, with room for one slot for each CPU.
    pub fn lookup(&self, key: &K) -> (call: LookupCall<K, Vec<u8>>)
        requires
            self@.num_cpus * self@.value_size <= usize::MAX,
        ensures
            call.fd == self@.map.map_fd,
            call.key == *key,
            call.value@ == Seq::new((self@.num_cpus * self@.value_size) as nat, |i: int| 0u8),
    {
        let room: usize = self.info.num_cpus * self.info.value_size;
        let value: Vec<u8> = vec![0u8; room];
        assert(value@ =~= Seq::new(room as nat, |i: int| 0u8));
        LookupCall { fd: self.info.map.map_fd, key: *key, value }
    }

    /// Reads the kernel's answer to a lookup: the values that it wrote, one
    /// for each slot and in the order of the CPUs, or the error "Error
    /// looking up elem" with the kernel's error number.
    pub fn finish_lookup(&self, call: LookupCall<K, Vec<u8>>, outcome: Outcome) -> (r: XDPResult<
        MapValue<V>,
    >)
        ensures
            !outcome.failed() ==> r is Ok && r->Ok_0 is Multi && r->Ok_0.values() == slot_values::<
                V,
            >(call.value@, self@.value_size as nat),
            self@.value_size == aligned_size(size_of::<V>()),
            outcome.failed() ==> r is Err && r->Err_0.code() == reported_errno(outcome.errno)
                && r->Err_0.tells("Error looking up elem"@),
    {
        let value_size: usize = self.value_size();
        let mut values: Vec<V> = Vec::new();
        if outcome.rc >= 0 {
            values = decode_per_cpu(call.value.as_slice(), value_size);
        }
        outcome.check(MapValue::Multi(values), "Error looking up elem")
    }

    /// Delete an element from the underlying eBPF map: the call that deletes
    /// `key`. Kinds of a fixed population do not support deletes: for them
    /// there is no call, but the error "invalid argument".
    pub fn delete(&self, key: &K) -> (r: XDPResult<DeleteCall<K>>)
        ensures
            self@.map.map_type.spec_is_array() ==> r is Err && r->Err_0.code() == EINVAL
                && r->Err_0.tells("Delete not supported on this map type"@),
            !self@.map.map_type.spec_is_array() ==> r == Ok::<DeleteCall<K>, XDPError>(
                DeleteCall { fd: self@.map.map_fd, key: *key },
            ),
    {
        self.info.map.delete(key)
    }

    /// Reads the kernel's answer to a delete.
    pub fn finish_delete(&self, outcome: Outcome) -> (r: XDPResult<()>)
        ensures
            !outcome.failed() ==> r == Ok::<(), XDPError>(()),
            outcome.failed() ==> r is Err && r->Err_0.code() == reported_errno(outcome.errno)
                && r->Err_0.tells("Error deleting elem"@),
    {
        outcome.check((), "Error deleting elem")
    }

    /// The call that asks for the key after `prev`, or for the first key of
    /// the map where `prev` is `None`.
    pub fn get_next_key(&self, prev: Option<K>) -> (call: NextKeyCall<K>)
        ensures
            call.fd == self@.map.map_fd,
            call.prev == prev,
            call_ensures(K::default, (), call.key),
    {
        NextKeyCall { fd: self.info.map.map_fd, prev, key: K::default() }
    }

    /// Reads the kernel's answer to a call for the next key: the key that it
    /// wrote, or the error "Error getting next key" with the kernel's error
    /// number.
    pub fn finish_get_next_key(&self, call: NextKeyCall<K>, outcome: Outcome) -> (r: XDPResult<K>)
        ensures
            !outcome.failed() ==> r == Ok::<K, XDPError>(call.key),
            outcome.failed() ==> r is Err && r->Err_0.code() == reported_errno(outcome.errno)
                && r->Err_0.tells("Error getting next key"@),
    {
        outcome.check(call.key, "Error getting next key")
    }

    /// Update a batch of elements in the underlying eBPF map. If the handle
    /// uses the batch calls and the map is not of a fixed population, this is
    /// one call for all elements. Otherwise, it is equivalent to calling
    /// `update()` for every element, in their order, up to the first that
    /// fails. Keys and values of different numbers are refused with "invalid
    /// argument", and no call is made.
    pub fn update_batch(&self, keys: &Vec<K>, values: &Vec<V>, flags: MapFlags) -> (r: XDPResult<
        UpdatePlan,
    >)
        ensures
            keys@.len() != values@.len() ==> r is Err && r->Err_0.code() == EINVAL
                && r->Err_0.tells(count_mismatch_message(keys@.len(), values@.len())),
            keys@.len() == values@.len() ==> r is Ok && r->Ok_0@ == if self@.map.batching_support
                && !self@.map.map_type.spec_is_array() {
                PlanView::bulk(keys.len())
            } else {
                PlanView::one_by_one(keys.len())
            },
    {
        let num_keys: usize = keys.len();
        let num_vals: usize = values.len();
        if num_keys != num_vals {
            return Err(count_mismatch_error(num_keys, num_vals));
        }
        if self.update_batching_not_supported() {
            return Ok(UpdatePlan::one_by_one(num_keys));
        }
        Ok(UpdatePlan::bulk(num_keys))
    }

    /// The call that writes all of `keys` and `values` at once: the values
    /// go into one buffer, each with its slot once for each CPU, in the order
    /// of the keys.
    pub fn update_batch_impl(&self, keys: &Vec<K>, values: &Vec<V>, flags: MapFlags) -> (call:
        UpdateBatchCall<K, Vec<u8>>)
        ensures
            call.fd == self@.map.map_fd,
            call.keys@ == keys@,
            call.values@ == replicated_all(values@, self@.num_cpus as nat),
            call.count == keys@.len() as u32,
            call.elem_flags == flags.spec_bits(),
    {
        let mut per_cpu_values: Vec<u8> = Vec::new();
        let mut i: usize = 0;
        while i < values.len()
            invariant
                i <= values.len(),
                per_cpu_values@ == replicated_all(values@.take(i as int), self@.num_cpus as nat),
            decreases values.len() - i,
        {
            let mut slots = encode_per_cpu(values[i], self.info.num_cpus);
            per_cpu_values.append(&mut slots);
            i += 1;
            assert(values@.take(i as int).drop_last() =~= values@.take(i - 1));
        }
        assert(values@.take(values.len() as int) =~= values@);
        UpdateBatchCall {
            fd: self.info.map.map_fd,
            keys: copy_vec(keys),
            values: per_cpu_values,
            count: #[verifier::truncate]
            (keys.len() as u32),
            elem_flags: flags.bits(),
        }
    }

    /// Reads the kernel's answer to an update of many elements at once: the
    /// number of elements that the kernel says it took, or the error "Error
    /// updating batch of elements" with the kernel's error number.
    pub fn finish_update_batch(&self, call: UpdateBatchCall<K, Vec<u8>>, outcome: Outcome) -> (r:
        XDPResult<u32>)
        ensures
            !outcome.failed() ==> r == Ok::<u32, XDPError>(call.count),
            outcome.failed() ==> r is Err && r->Err_0.code() == reported_errno(outcome.errno)
                && r->Err_0.tells("Error updating batch of elements"@),
    {
        outcome.check(call.count, "Error updating batch of elements")
    }

    /// True if `call` asks this map for a batch of up to `batch_size`
    /// elements, going on from `next_key`, with room for that many keys and
    /// for the values of that many elements on every CPU.
    pub open spec fn asks_for_batch(
        &self,
        call: LookupBatchCall<K, Vec<u8>>,
        batch_size: u32,
        next_key: Option<u32>,
        delete: bool,
    ) -> bool {
        &&& call.fd == self@.map.map_fd
        &&& call.next_key == next_key
        &&& call.count == batch_size
        &&& call.delete == delete
        &&& call.nkey == 0
        &&& call.keys@.len() == batch_size
        &&& call.values@ == Seq::new(
            (batch_size * (self@.num_cpus * self@.value_size)) as nat,
            |i: int| 0u8,
        )
    }

    /// Lookup a batch of elements from the underlying eBPF map: the call that
    /// reads up to `batch_size` elements, going on from `next_key`, which is
    /// the key that came with the batch before, or `None` for the first
    /// batch. A handle without the batch calls has no such call, but the
    /// error "operation not supported": batches are not put together from
    /// single lookups.
    pub fn lookup_batch(&self, batch_size: u32, next_key: Option<u32>) -> (r: XDPResult<
        LookupBatchCall<K, Vec<u8>>,
    >)
        requires
            self@.map.batching_support ==> batch_size * (self@.num_cpus * self@.value_size)
                <= usize::MAX,
        ensures
            !self@.map.batching_support ==> r is Err && r->Err_0.code() == EOPNOTSUPP
                && r->Err_0.tells("Batching not supported"@),
            self@.map.batching_support ==> r is Ok && self.asks_for_batch(
                r->Ok_0,
                batch_size,
                next_key,
                false,
            ),
    {
        match self.info.map.may_lookup_batch(false) {
            Err(e) => Err(e),
            Ok(_) => Ok(self.lookup_batch_impl(batch_size, next_key, false)),
        }
    }

    /// Lookup and delete a batch of elements from the underlying eBPF map:
    /// as `lookup_batch`, with a call that also deletes what it reads. Kinds
    /// of a fixed population do not support deletes: for them there is no
    /// call, but the error "invalid argument".
    pub fn lookup_and_delete_batch(&self, batch_size: u32, next_key: Option<u32>) -> (r:
        XDPResult<LookupBatchCall<K, Vec<u8>>>)
        requires
            self@.map.batching_support && !self@.map.map_type.spec_is_array() ==> batch_size * (
            self@.num_cpus * self@.value_size) <= usize::MAX,
        ensures
            !self@.map.batching_support ==> r is Err && r->Err_0.code() == EOPNOTSUPP
                && r->Err_0.tells("Batching not supported"@),
            self@.map.batching_support && self@.map.map_type.spec_is_array() ==> r is Err
                && r->Err_0.code() == EINVAL && r->Err_0.tells(
                "Delete not supported on this map type"@,
            ),
            self@.map.batching_support && !self@.map.map_type.spec_is_array() ==> r is Ok
                && self.asks_for_batch(r->Ok_0, batch_size, next_key, true),
    {
        match self.info.map.may_lookup_batch(true) {
            Err(e) => Err(e),
            Ok(_) => Ok(self.lookup_batch_impl(batch_size, next_key, true)),
        }
    }

    /// The call that reads up to `batch_size` elements, whether the handle
    /// uses the batch calls or not.
    pub fn lookup_batch_impl(&self, batch_size: u32, next_key: Option<u32>, delete: bool) -> (call:
        LookupBatchCall<K, Vec<u8>>)
        requires
            batch_size * (self@.num_cpus * self@.value_size) <= usize::MAX,
        ensures
            self.asks_for_batch(call, batch_size, next_key, delete),
    {
        let keys: Vec<K> = vec![K::default(); batch_size as usize];
        let mut vals_size: usize = 0;
        if batch_size > 0 {
            proof {
                lemma_element_in_bounds(
                    (batch_size * (self@.num_cpus * self@.value_size)) as nat,
                    (self@.num_cpus * self@.value_size) as nat,
                    batch_size as nat,
                    0,
                );
            }
            vals_size = batch_size as usize * (self.info.num_cpus * self.info.value_size);
        } else {
            assert(batch_size * (self@.num_cpus * self@.value_size) == 0) by (nonlinear_arith)
                requires
                    batch_size == 0,
            ;
        }
        let values: Vec<u8> = vec![0u8; vals_size];
        assert(values@ =~= Seq::new(vals_size as nat, |i: int| 0u8));
        LookupBatchCall {
            fd: self.info.map.map_fd,
            next_key,
            keys,
            values,
            count: batch_size,
            nkey: 0,
            delete,
        }
    }

    /// Reads the kernel's answer to a batch lookup. The kernel has written
    /// to `call.count` how many elements it handed over, which may be fewer
    /// than were asked for, and none; they are the items of the batch, the
    /// last first, each with the values of all CPUs in the order of the CPUs.
    /// A call that failed with "invalid argument" or "no more entries" is a
    /// clean end: it is no error, and there is no key to go on from. Any
    /// other failed call is the error "Error looking up batch of elements"
    /// with the kernel's error number.
    pub fn finish_lookup_batch(&self, call: LookupBatchCall<K, Vec<u8>>, outcome: Outcome) -> (r:
        XDPResult<BatchResult<K, MapValue<V>>>)
        requires
            call.count <= call.keys@.len(),
            call.count * (self@.num_cpus * self@.value_size) <= call.values@.len(),
        ensures
            batch_went_through(outcome) ==> r is Ok && per_cpu_batch_items(
                r->Ok_0.items@,
                call.keys@,
                call.values@,
                call.count as nat,
                self@.num_cpus as nat,
                self@.value_size as nat,
            ) && r->Ok_0.next_key == batch_cursor(outcome, call.nkey) && r->Ok_0.num_items
                == call.count,
            self@.value_size == aligned_size(size_of::<V>()),
            !batch_went_through(outcome) ==> r is Err && r->Err_0.code() == reported_errno(
                outcome.errno,
            ) && r->Err_0.tells("Error looking up batch of elements"@),
    {
        let mut call = call;
        let value_size: usize = self.value_size();
        let seen = match lookup_batch_prealloc(outcome, call.nkey, call.count) {
            Ok(seen) => seen,
            Err(e) => {
                return Err(e);
            },
        };
        let mut result: Vec<KeyValue<K, MapValue<V>>> = Vec::new();
        populate_batch_result(
            seen.num_items,
            &mut result,
            &mut call.keys,
            &mut call.values,
            value_size,
            self.info.num_cpus,
        );
        assert(result@.skip(0) =~= result@);
        Ok(BatchResult { items: result, next_key: seen.next_key, num_items: seen.num_items })
    }

    /// Returns all items in the map, as a walk for the caller to carry out.
    /// The walk goes key by key if the map is of a fixed population, if it
    /// has fewer than 50 entries, or if the handle does not use the batch
    /// calls; else batch by batch. Note that for Array type maps, this will
    /// always return `max_entries` number of items.
    pub fn items(&self) -> (walk: ItemsWalk<K, V>)
        ensures
            walk@ == if self@.map.map_type.spec_is_array() || self@.map.max_entries
                < BATCH_MIN_ENTRIES || !self@.map.batching_support {
                WalkView::<K, V>::linear(false)
            } else {
                WalkView::<K, V>::bulk()
            },
    {
        if self.info.map.map_type.is_array() || self.info.map.max_entries < BATCH_MIN_ENTRIES
            || !self.info.map.batching_support {
            return self._items();
        }
        ItemsWalk::bulk()
    }

    /// All items in the map, key by key. The walk stops at the first key
    /// whose values cannot be read.
    pub fn _items(&self) -> (walk: ItemsWalk<K, V>)
        ensures
            walk@ == WalkView::<K, V>::linear(false),
    {
        ItemsWalk::linear(false)
    }
}

/// What is written with `update` is what a lookup reads back, once for each
/// CPU: when the kernel hands the buffer of the call that wrote `value` to
/// the call that looks it up, `finish_lookup` finds `value`, `num_cpus`
/// times.
pub proof fn lemma_update_lookup_round_trip<K, V: ByteAligned>(
    written: UpdateCall<K, Vec<u8>>,
    read: LookupCall<K, Vec<u8>>,
    value: V,
    num_cpus: nat,
)
    requires
        written.value@ == replicated(value.spec_align(), num_cpus),
        read.value@ == written.value@,
    ensures
        slot_values::<V>(read.value@, aligned_size(size_of::<V>())) == Seq::new(
            num_cpus,
            |i: int| value,
        ),
{
    lemma_per_cpu_round_trip(value, num_cpus);
}

} // verus!
