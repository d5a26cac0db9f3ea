use rxdp::map_common::{
    CreateCall, DeleteCall, LookupBatchCall, LookupCall, NextKeyCall, UpdateBatchCall, UpdateCall,
};
use rxdp::{
    BatchResult, CapabilityProbe, ItemsWalk, KeyValue, MapDescriptor, MapFlags, MapType, MapValue,
    Outcome, PerCpuMap, PerfMap, ProbeStep, UpdateEvent, UpdatePlan, UpdateStep, WalkEvent,
    WalkStep, XDPMap, XDPResult,
};
use rxdp::capability::{cache_value, check_batching_supported, RXDP_BATCH_ENV};
use std::collections::HashMap;

const MAP_LRU_HASH: &'static str = "lru_hash";
const MAP_HASH: &'static str = "hash";
const MAP_HASH_BIG: &'static str = "big_hash";
const MAP_ARRAY: &'static str = "array";
const MAP_ARRAY_BIG: &'static str = "big_array";

const MAP_PERCPU_HASH: &'static str = "per_cpu_hash";
const MAP_PERCPU_HASH_BIG: &'static str = "pc_hash_big";
const MAP_PERCPU_LRU_HASH: &'static str = "per_cpu_lru";
const MAP_PERCPU_ARRAY: &'static str = "per_cpu_array";
const MAP_PERCPU_ARRAY_BIG: &'static str = "pc_array_big";

const DEV_MAP: &'static str = "dev_map";
const PERF_MAP: &'static str = "perf_event";

const NUM_CPUS: usize = 4;
const ENOENT: i32 = 2;
const E2BIG: i32 = 7;
const EEXIST: i32 = 17;
const EINVAL: i32 = 22;
const ENOSYS: i32 = 38;

const OK: Outcome = Outcome { rc: 0, errno: 0 };

fn failed(errno: i32) -> Outcome {
    Outcome { rc: -1, errno }
}

/// One map of the stand-in kernel: its elements in the order in which the
/// kernel hands them out.
struct KernelMap {
    kind: MapType,
    key_size: u32,
    value_size: u32,
    max_entries: u32,
    elements: Vec<(u32, Vec<u8>)>,
}

impl KernelMap {
    fn value_len(&self) -> usize {
        if self.kind.is_per_cpu() {
            NUM_CPUS * (((self.value_size as usize) + 7) / 8 * 8)
        } else {
            self.value_size as usize
        }
    }

    fn find(&self, key: u32) -> Option<usize> {
        self.elements.iter().position(|(k, _)| *k == key)
    }
}

/// A stand-in for the kernel, which keeps maps in memory and answers the
/// calls as the kernel does. With `batching` off it knows no batch calls.
struct Kernel {
    maps: Vec<KernelMap>,
    names: Vec<(String, i32)>,
    batching: bool,
    calls: usize,
}

impl Kernel {
    fn new(batching: bool) -> Kernel {
        Kernel { maps: Vec::new(), names: Vec::new(), batching, calls: 0 }
    }

    /// A kernel with the maps of the loaded test object.
    fn loaded(batching: bool) -> Kernel {
        let mut k = Kernel::new(batching);
        k.load(MAP_LRU_HASH, MapType::LRUHash, 4, 10);
        k.load(MAP_HASH, MapType::Hash, 4, 10);
        k.load(MAP_HASH_BIG, MapType::Hash, 4, 256);
        k.load(MAP_ARRAY, MapType::Array, 4, 10);
        k.load(MAP_ARRAY_BIG, MapType::Array, 4, 256);
        k.load(MAP_PERCPU_HASH, MapType::PerCPUHash, 4, 10);
        k.load(MAP_PERCPU_HASH_BIG, MapType::PerCPUHash, 4, 256);
        k.load(MAP_PERCPU_LRU_HASH, MapType::LRUPerCPUHash, 4, 10);
        k.load(MAP_PERCPU_ARRAY, MapType::PerCPUArray, 4, 10);
        k.load(MAP_PERCPU_ARRAY_BIG, MapType::PerCPUArray, 4, 256);
        k.load(DEV_MAP, MapType::DevMap, 4, 10);
        k.load(PERF_MAP, MapType::PerfEventArray, 4, 10);
        k
    }

    fn load(&mut self, name: &str, kind: MapType, value_size: u32, max_entries: u32) {
        let fd = self.add(kind, 4, value_size, max_entries);
        self.names.push((name.to_string(), fd));
    }

    fn add(&mut self, kind: MapType, key_size: u32, value_size: u32, max_entries: u32) -> i32 {
        let mut map =
            KernelMap { kind, key_size, value_size, max_entries, elements: Vec::new() };
        if kind.is_array() {
            for i in 0..max_entries {
                map.elements.push((i, vec![0u8; map.value_len()]));
            }
        }
        if kind.holds_references() {
            // Every slot is listed; an empty one has no value to read.
            for i in 0..max_entries {
                map.elements.push((i, Vec::new()));
            }
        }
        self.maps.push(map);
        (self.maps.len() - 1) as i32 + 3
    }

    /// What the loader knows of the map `name`.
    fn find_map(&self, name: &str) -> Option<MapDescriptor> {
        let fd = self.names.iter().find(|(n, _)| n == name)?.1;
        let m = &self.maps[(fd - 3) as usize];
        Some(MapDescriptor {
            map_fd: fd,
            key_size: m.key_size,
            value_size: m.value_size,
            map_type: m.kind.code(),
            max_entries: m.max_entries,
        })
    }

    fn map(&mut self, fd: i32) -> &mut KernelMap {
        self.calls += 1;
        &mut self.maps[(fd - 3) as usize]
    }

    fn create(&mut self, call: &CreateCall) -> Outcome {
        self.calls += 1;
        if call.max_entries == 0 {
            return failed(EINVAL);
        }
        let fd = self.add(call.map_type, call.key_size, call.value_size, call.max_entries);
        Outcome { rc: fd, errno: 0 }
    }

    fn update(&mut self, fd: i32, key: u32, value: &[u8], flags: u64) -> Outcome {
        let m = self.map(fd);
        assert_eq!(value.len(), m.value_len());
        match m.find(key) {
            Some(i) => {
                if flags == 1 && !m.elements[i].1.is_empty() {
                    return failed(EEXIST);
                }
                m.elements[i].1 = value.to_vec();
                OK
            }
            None => {
                if m.kind.is_array() || m.kind.holds_references() {
                    return failed(E2BIG);
                }
                if flags == 2 {
                    return failed(ENOENT);
                }
                if m.elements.len() as u32 >= m.max_entries {
                    return failed(E2BIG);
                }
                m.elements.push((key, value.to_vec()));
                OK
            }
        }
    }

    fn lookup(&mut self, fd: i32, key: u32, value: &mut [u8]) -> Outcome {
        let m = self.map(fd);
        assert_eq!(value.len(), m.value_len());
        match m.find(key) {
            Some(i) if !m.elements[i].1.is_empty() => {
                value.copy_from_slice(&m.elements[i].1);
                OK
            }
            _ => failed(ENOENT),
        }
    }

    fn delete(&mut self, fd: i32, key: u32) -> Outcome {
        let m = self.map(fd);
        match m.find(key) {
            Some(i) if m.kind.holds_references() => {
                m.elements[i].1 = Vec::new();
                OK
            }
            Some(i) => {
                m.elements.remove(i);
                OK
            }
            None => failed(ENOENT),
        }
    }

    fn next_key(&mut self, fd: i32, prev: Option<u32>, key: &mut u32) -> Outcome {
        let m = self.map(fd);
        let at = match prev.and_then(|p| m.find(p)) {
            Some(i) => i + 1,
            None => 0,
        };
        if at >= m.elements.len() {
            return failed(ENOENT);
        }
        *key = m.elements[at].0;
        OK
    }

    fn update_batch(
        &mut self,
        fd: i32,
        keys: &[u32],
        values: &[u8],
        count: &mut u32,
        elem_flags: u64,
    ) -> Outcome {
        if !self.batching {
            self.calls += 1;
            return failed(ENOSYS);
        }
        let len = self.maps[(fd - 3) as usize].value_len();
        assert_eq!(values.len(), keys.len() * len);
        let asked = *count as usize;
        *count = 0;
        for i in 0..asked {
            let out = self.update(fd, keys[i], &values[i * len..(i + 1) * len], elem_flags);
            self.calls -= 1;
            if out.rc < 0 {
                self.calls += 1;
                return out;
            }
            *count += 1;
        }
        self.calls += 1;
        OK
    }

    fn lookup_batch(
        &mut self,
        fd: i32,
        next_key: Option<u32>,
        keys: &mut [u32],
        values: &mut [u8],
        count: &mut u32,
        nkey: &mut u32,
        delete: bool,
    ) -> Outcome {
        let batching = self.batching;
        let m = self.map(fd);
        if !batching {
            return failed(ENOSYS);
        }
        let len = m.value_len();
        assert!(keys.len() >= *count as usize);
        assert!(values.len() >= *count as usize * len);
        let start = if delete {
            0
        } else {
            next_key.unwrap_or(0) as usize
        };
        let mut n = 0usize;
        while n < *count as usize && start + n < m.elements.len() {
            keys[n] = m.elements[start + n].0;
            values[n * len..(n + 1) * len].copy_from_slice(&m.elements[start + n].1);
            n += 1;
        }
        let at_end = start + n >= m.elements.len();
        if delete {
            m.elements.drain(start..start + n);
            *nkey = 0;
        } else {
            *nkey = (start + n) as u32;
        }
        *count = n as u32;
        if at_end {
            failed(ENOENT)
        } else {
            OK
        }
    }
}

/// Values that the stand-in kernel keeps as they lie in memory.
trait Plain: Copy + Default + PartialEq + std::fmt::Debug {
    fn put(&self) -> Vec<u8>;
    fn get(bytes: &[u8]) -> Self;
}

impl Plain for u32 {
    fn put(&self) -> Vec<u8> {
        self.to_ne_bytes().to_vec()
    }

    fn get(bytes: &[u8]) -> Self {
        u32::from_ne_bytes([bytes[0], bytes[1], bytes[2], bytes[3]])
    }
}

impl Plain for i32 {
    fn put(&self) -> Vec<u8> {
        self.to_ne_bytes().to_vec()
    }

    fn get(bytes: &[u8]) -> Self {
        i32::from_ne_bytes([bytes[0], bytes[1], bytes[2], bytes[3]])
    }
}

/// A handle together with the part that carries its calls to the kernel.
trait MapLike<V: Copy> {
    fn map_type(&self) -> MapType;
    fn max_entries(&self) -> u32;
    fn update(&self, k: &mut Kernel, key: &u32, value: &V, flags: MapFlags) -> XDPResult<()>;
    fn lookup(&self, k: &mut Kernel, key: &u32) -> XDPResult<MapValue<V>>;
    fn delete(&self, k: &mut Kernel, key: &u32) -> XDPResult<()>;
    fn get_next_key(&self, k: &mut Kernel, prev: Option<u32>) -> XDPResult<u32>;
    fn plan(&self, keys: &Vec<u32>, values: &Vec<V>, flags: MapFlags) -> XDPResult<UpdatePlan>;
    fn update_all(
        &self,
        k: &mut Kernel,
        keys: &Vec<u32>,
        values: &Vec<V>,
        flags: MapFlags,
    ) -> XDPResult<u32>;
    fn lookup_batch(
        &self,
        k: &mut Kernel,
        batch_size: u32,
        next_key: Option<u32>,
    ) -> XDPResult<BatchResult<u32, MapValue<V>>>;
    fn lookup_and_delete_batch(
        &self,
        k: &mut Kernel,
        batch_size: u32,
        next_key: Option<u32>,
    ) -> XDPResult<BatchResult<u32, MapValue<V>>>;
    fn lookup_batch_impl(
        &self,
        k: &mut Kernel,
        batch_size: u32,
        next_key: Option<u32>,
    ) -> XDPResult<BatchResult<u32, MapValue<V>>>;
    fn walk(&self) -> ItemsWalk<u32, V>;

    fn update_batch(
        &self,
        k: &mut Kernel,
        keys: &mut Vec<u32>,
        values: &mut Vec<V>,
        flags: MapFlags,
    ) -> XDPResult<u32> {
        let mut plan = self.plan(keys, values, flags)?;
        loop {
            match plan.step() {
                UpdateStep::One(i) => {
                    let r = self.update(k, &keys[i], &values[i], flags);
                    plan.advance(UpdateEvent::One(r));
                }
                UpdateStep::Bulk => {
                    let r = self.update_all(k, keys, values, flags);
                    plan.advance(UpdateEvent::Bulk(r));
                }
                UpdateStep::Done => return plan.finish(),
            }
        }
    }

    fn items(&self, k: &mut Kernel) -> XDPResult<Vec<KeyValue<u32, MapValue<V>>>> {
        let mut walk = self.walk();
        loop {
            match walk.step() {
                WalkStep::NextKey(prev) => {
                    let r = self.get_next_key(k, prev);
                    walk.advance(WalkEvent::Key(r));
                }
                WalkStep::Lookup(key) => {
                    let r = self.lookup(k, &key);
                    walk.advance(WalkEvent::Value(r));
                }
                WalkStep::LookupBatch { batch_size, next_key } => {
                    let r = self.lookup_batch_impl(k, batch_size, next_key);
                    walk.advance(WalkEvent::Batch(r));
                }
                WalkStep::Done => return walk.finish(),
            }
        }
    }
}

fn run_delete(k: &mut Kernel, call: &DeleteCall<u32>) -> Outcome {
    k.delete(call.fd, call.key)
}

fn run_next_key(k: &mut Kernel, call: &mut NextKeyCall<u32>) -> Outcome {
    k.next_key(call.fd, call.prev, &mut call.key)
}

fn run_plain_batch<V: Plain>(k: &mut Kernel, call: &mut LookupBatchCall<u32, Vec<V>>) -> Outcome {
    let mut bytes = vec![0u8; call.values.len() * 4];
    let out = k.lookup_batch(
        call.fd,
        call.next_key,
        &mut call.keys,
        &mut bytes,
        &mut call.count,
        &mut call.nkey,
        call.delete,
    );
    for i in 0..call.count as usize {
        call.values[i] = V::get(&bytes[i * 4..(i + 1) * 4]);
    }
    assert!(call.count as usize <= call.keys.len());
    assert!(call.count as usize <= call.values.len());
    out
}

fn run_per_cpu_batch(k: &mut Kernel, call: &mut LookupBatchCall<u32, Vec<u8>>) -> Outcome {
    let out = k.lookup_batch(
        call.fd,
        call.next_key,
        &mut call.keys,
        &mut call.values,
        &mut call.count,
        &mut call.nkey,
        call.delete,
    );
    assert!(call.count as usize <= call.keys.len());
    out
}

impl<V: Plain> MapLike<V> for XDPMap<u32, V> {
    fn map_type(&self) -> MapType {
        XDPMap::map_type(self)
    }

    fn max_entries(&self) -> u32 {
        XDPMap::max_entries(self)
    }

    fn update(&self, k: &mut Kernel, key: &u32, value: &V, flags: MapFlags) -> XDPResult<()> {
        let call: UpdateCall<u32, V> = XDPMap::update(self, key, value, flags);
        let out = k.update(call.fd, call.key, &call.value.put(), call.flags);
        self.finish_update(out)
    }

    fn lookup(&self, k: &mut Kernel, key: &u32) -> XDPResult<MapValue<V>> {
        let mut call: LookupCall<u32, V> = XDPMap::lookup(self, key);
        let mut bytes = call.value.put();
        let out = k.lookup(call.fd, call.key, &mut bytes);
        call.value = V::get(&bytes);
        self.finish_lookup(call, out)
    }

    fn delete(&self, k: &mut Kernel, key: &u32) -> XDPResult<()> {
        let call = XDPMap::delete(self, key)?;
        let out = run_delete(k, &call);
        self.finish_delete(out)
    }

    fn get_next_key(&self, k: &mut Kernel, prev: Option<u32>) -> XDPResult<u32> {
        let mut call = XDPMap::get_next_key(self, prev);
        let out = run_next_key(k, &mut call);
        self.finish_get_next_key(call, out)
    }

    fn plan(&self, keys: &Vec<u32>, values: &Vec<V>, flags: MapFlags) -> XDPResult<UpdatePlan> {
        XDPMap::update_batch(self, keys, values, flags)
    }

    fn update_all(
        &self,
        k: &mut Kernel,
        keys: &Vec<u32>,
        values: &Vec<V>,
        flags: MapFlags,
    ) -> XDPResult<u32> {
        let mut call: UpdateBatchCall<u32, Vec<V>> = self.update_batch_impl(keys, values, flags);
        let bytes: Vec<u8> = call.values.iter().flat_map(|v| v.put()).collect();
        let out = k.update_batch(call.fd, &call.keys, &bytes, &mut call.count, call.elem_flags);
        self.finish_update_batch(call, out)
    }

    fn lookup_batch(
        &self,
        k: &mut Kernel,
        batch_size: u32,
        next_key: Option<u32>,
    ) -> XDPResult<BatchResult<u32, MapValue<V>>> {
        let mut call = XDPMap::lookup_batch(self, batch_size, next_key)?;
        let out = run_plain_batch(k, &mut call);
        self.finish_lookup_batch(call, out)
    }

    fn lookup_and_delete_batch(
        &self,
        k: &mut Kernel,
        batch_size: u32,
        next_key: Option<u32>,
    ) -> XDPResult<BatchResult<u32, MapValue<V>>> {
        let mut call = XDPMap::lookup_and_delete_batch(self, batch_size, next_key)?;
        let out = run_plain_batch(k, &mut call);
        self.finish_lookup_batch(call, out)
    }

    fn lookup_batch_impl(
        &self,
        k: &mut Kernel,
        batch_size: u32,
        next_key: Option<u32>,
    ) -> XDPResult<BatchResult<u32, MapValue<V>>> {
        let mut call = XDPMap::lookup_batch_impl(self, batch_size, next_key, false);
        let out = run_plain_batch(k, &mut call);
        self.finish_lookup_batch(call, out)
    }

    fn walk(&self) -> ItemsWalk<u32, V> {
        XDPMap::items(self)
    }
}

impl MapLike<u32> for PerCpuMap<u32, u32> {
    fn map_type(&self) -> MapType {
        PerCpuMap::map_type(self)
    }

    fn max_entries(&self) -> u32 {
        PerCpuMap::max_entries(self)
    }

    fn update(&self, k: &mut Kernel, key: &u32, value: &u32, flags: MapFlags) -> XDPResult<()> {
        let call: UpdateCall<u32, Vec<u8>> = PerCpuMap::update(self, key, value, flags);
        let out = k.update(call.fd, call.key, &call.value, call.flags);
        self.finish_update(out)
    }

    fn lookup(&self, k: &mut Kernel, key: &u32) -> XDPResult<MapValue<u32>> {
        let mut call: LookupCall<u32, Vec<u8>> = PerCpuMap::lookup(self, key);
        let out = k.lookup(call.fd, call.key, &mut call.value);
        self.finish_lookup(call, out)
    }

    fn delete(&self, k: &mut Kernel, key: &u32) -> XDPResult<()> {
        let call = PerCpuMap::delete(self, key)?;
        let out = run_delete(k, &call);
        self.finish_delete(out)
    }

    fn get_next_key(&self, k: &mut Kernel, prev: Option<u32>) -> XDPResult<u32> {
        let mut call = PerCpuMap::get_next_key(self, prev);
        let out = run_next_key(k, &mut call);
        self.finish_get_next_key(call, out)
    }

    fn plan(&self, keys: &Vec<u32>, values: &Vec<u32>, flags: MapFlags) -> XDPResult<UpdatePlan> {
        PerCpuMap::update_batch(self, keys, values, flags)
    }

    fn update_all(
        &self,
        k: &mut Kernel,
        keys: &Vec<u32>,
        values: &Vec<u32>,
        flags: MapFlags,
    ) -> XDPResult<u32> {
        let mut call = self.update_batch_impl(keys, values, flags);
        let out =
            k.update_batch(call.fd, &call.keys, &call.values, &mut call.count, call.elem_flags);
        self.finish_update_batch(call, out)
    }

    fn lookup_batch(
        &self,
        k: &mut Kernel,
        batch_size: u32,
        next_key: Option<u32>,
    ) -> XDPResult<BatchResult<u32, MapValue<u32>>> {
        let mut call = PerCpuMap::lookup_batch(self, batch_size, next_key)?;
        let out = run_per_cpu_batch(k, &mut call);
        self.finish_lookup_batch(call, out)
    }

    fn lookup_and_delete_batch(
        &self,
        k: &mut Kernel,
        batch_size: u32,
        next_key: Option<u32>,
    ) -> XDPResult<BatchResult<u32, MapValue<u32>>> {
        let mut call = PerCpuMap::lookup_and_delete_batch(self, batch_size, next_key)?;
        let out = run_per_cpu_batch(k, &mut call);
        self.finish_lookup_batch(call, out)
    }

    fn lookup_batch_impl(
        &self,
        k: &mut Kernel,
        batch_size: u32,
        next_key: Option<u32>,
    ) -> XDPResult<BatchResult<u32, MapValue<u32>>> {
        let mut call = PerCpuMap::lookup_batch_impl(self, batch_size, next_key, false);
        let out = run_per_cpu_batch(k, &mut call);
        self.finish_lookup_batch(call, out)
    }

    fn walk(&self) -> ItemsWalk<u32, u32> {
        PerCpuMap::items(self)
    }
}

/// Finds out whether the stand-in kernel has the batch calls, as a process does
/// on its first use of them.
fn probe(k: &mut Kernel) -> bool {
    let mut probe: CapabilityProbe = rxdp::capability::check_batching_supported(None);
    let mut map: Option<XDPMap<u32, u32>> = None;
    loop {
        match probe.step() {
            ProbeStep::Create => {
                let made = rxdp::capability::probe_create().and_then(|creation| {
                    let out = k.create(&creation.call());
                    XDPMap::finish_create(creation, out)
                });
                probe.advance(made.is_ok());
                map = made.ok();
            }
            ProbeStep::Update => {
                let m = map.as_ref().unwrap();
                let call = rxdp::capability::probe_update(m);
                let out = k.update(call.fd, call.key, &call.value.put(), call.flags);
                probe.advance(m.finish_update(out).is_ok());
            }
            ProbeStep::LookupBatch => {
                let m = map.as_ref().unwrap();
                let mut call = rxdp::capability::probe_lookup_batch(m);
                let out = run_plain_batch(k, &mut call);
                probe.advance(m.finish_lookup_batch(call, out).is_ok());
            }
            ProbeStep::Done(_) => return rxdp::is_batching_supported(&probe),
        }
    }
}

fn create_map<V: Plain>(
    k: &mut Kernel,
    map_type: MapType,
    key_size: u32,
    value_size: u32,
    max_entries: u32,
    map_flags: u32,
) -> XDPResult<XDPMap<u32, V>> {
    let batching = probe(k);
    let creation =
        XDPMap::<u32, V>::create(map_type, key_size, value_size, max_entries, map_flags, batching)?;
    let out = k.create(&creation.call());
    XDPMap::finish_create(creation, out)
}

fn create_per_cpu_map(
    k: &mut Kernel,
    map_type: MapType,
    key_size: u32,
    value_size: u32,
    max_entries: u32,
    map_flags: u32,
) -> XDPResult<PerCpuMap<u32, u32>> {
    let batching = probe(k);
    let creation = PerCpuMap::<u32, u32>::create(
        map_type,
        key_size,
        value_size,
        max_entries,
        map_flags,
        NUM_CPUS,
        batching,
    )?;
    let out = k.create(&creation.call());
    PerCpuMap::finish_create(creation, out)
}

fn open_map<V: Plain>(k: &mut Kernel, name: &str) -> XDPResult<XDPMap<u32, V>> {
    let batching = probe(k);
    XDPMap::new(k.find_map(name), name, batching)
}

fn open_per_cpu_map(k: &mut Kernel, name: &str) -> XDPResult<PerCpuMap<u32, u32>> {
    let batching = probe(k);
    PerCpuMap::new(k.find_map(name), name, NUM_CPUS, batching)
}

fn hash_map(k: &mut Kernel, batching: bool, max_entries: u32) -> XDPMap<u32, u32> {
    let creation = XDPMap::<u32, u32>::create(MapType::Hash, 4, 4, max_entries, 0, batching).unwrap();
    let out = k.create(&creation.call());
    XDPMap::finish_create(creation, out).unwrap()
}

fn array_map(k: &mut Kernel, batching: bool, max_entries: u32) -> XDPMap<u32, u32> {
    let creation =
        XDPMap::<u32, u32>::create(MapType::Array, 4, 4, max_entries, 0, batching).unwrap();
    let out = k.create(&creation.call());
    XDPMap::finish_create(creation, out).unwrap()
}

fn per_cpu_map(k: &mut Kernel, kind: MapType, batching: bool, max: u32) -> PerCpuMap<u32, u32> {
    let creation =
        PerCpuMap::<u32, u32>::create(kind, 4, 4, max, 0, NUM_CPUS, batching).unwrap();
    let out = k.create(&creation.call());
    PerCpuMap::finish_create(creation, out).unwrap()
}

fn pairs(items: Vec<KeyValue<u32, MapValue<u32>>>) -> Vec<(u32, Vec<u32>)> {
    items.into_iter().map(|kv| (kv.key, kv.value.into_vec())).collect()
}

#[test]
fn test_update_lookup_delete_scenario() {
    let mut k = Kernel::new(true);
    let m = create_map::<u32>(&mut k, MapType::Hash, 4, 4, 10, 0).unwrap();
    MapLike::update(&m, &mut k, &100u32, &101u32, MapFlags::BpfAny).unwrap();
    assert_eq!(MapLike::lookup(&m, &mut k, &100u32).unwrap(), MapValue::Single(101u32));
    MapLike::delete(&m, &mut k, &100u32).unwrap();
    let e = MapLike::lookup(&m, &mut k, &100u32).err().unwrap();
    assert_eq!(e.code(), ENOENT);
    assert!(e.description().starts_with("Error looking up elem: "));
}

#[test]
fn test_round_trip_for_every_kind_of_handle() {
    let mut k = Kernel::new(true);
    let hash = hash_map(&mut k, true, 10);
    let array = array_map(&mut k, true, 10);
    let pc_hash = per_cpu_map(&mut k, MapType::PerCPUHash, true, 10);
    let pc_array = per_cpu_map(&mut k, MapType::PerCPUArray, true, 10);
    let pc_lru = per_cpu_map(&mut k, MapType::LRUPerCPUHash, true, 10);
    for (key, val) in [(0u32, 0u32), (3, 7), (9, u32::MAX), (5, 0x0102_0304)] {
        MapLike::update(&hash, &mut k, &key, &val, MapFlags::BpfAny).unwrap();
        assert_eq!(MapLike::lookup(&hash, &mut k, &key).unwrap(), MapValue::Single(val));
        MapLike::update(&array, &mut k, &key, &val, MapFlags::BpfAny).unwrap();
        assert_eq!(MapLike::lookup(&array, &mut k, &key).unwrap(), MapValue::Single(val));
        for m in [&pc_hash, &pc_array, &pc_lru] {
            MapLike::update(m, &mut k, &key, &val, MapFlags::BpfAny).unwrap();
            let got = MapLike::lookup(m, &mut k, &key).unwrap();
            assert_eq!(got, MapValue::Multi(vec![val; NUM_CPUS]));
        }
    }
}

#[test]
fn test_update_call_carries_what_was_asked() {
    let mut k = Kernel::new(true);
    let m = hash_map(&mut k, true, 10);
    let call = m.update(&7u32, &9u32, MapFlags::BpfNoExist);
    assert_eq!((call.fd, call.key, call.value, call.flags), (m.map_fd(), 7, 9, 1));
    let call = m.update(&7u32, &9u32, MapFlags::BpfExist);
    assert_eq!(call.flags, 2);
    let call = m.update(&7u32, &9u32, MapFlags::BpfAny);
    assert_eq!(call.flags, 0);
    let pc = per_cpu_map(&mut k, MapType::PerCPUHash, true, 10);
    let call = pc.update(&7u32, &0x0A0Bu32, MapFlags::BpfExist);
    assert_eq!((call.fd, call.key, call.flags), (pc.map_fd(), 7, 2));
    let slot = [0x0Bu8, 0x0A, 0, 0, 0, 0, 0, 0];
    assert_eq!(call.value, slot.repeat(NUM_CPUS));
    let call = pc.lookup(&7u32);
    assert_eq!(call.value, vec![0u8; NUM_CPUS * 8]);
    assert_eq!(pc.value_size(), 8);
    assert_eq!(pc.num_cpus(), NUM_CPUS);
}

#[test]
fn test_update_flags_go_to_the_kernel() {
    let mut k = Kernel::new(true);
    let m = hash_map(&mut k, true, 10);
    let e = MapLike::update(&m, &mut k, &1u32, &1u32, MapFlags::BpfExist).err().unwrap();
    assert_eq!(e.code(), ENOENT);
    assert!(e.description().starts_with("Error updating elem: "));
    MapLike::update(&m, &mut k, &1u32, &1u32, MapFlags::BpfNoExist).unwrap();
    let e = MapLike::update(&m, &mut k, &1u32, &2u32, MapFlags::BpfNoExist).err().unwrap();
    assert_eq!(e.code(), EEXIST);
    MapLike::update(&m, &mut k, &1u32, &3u32, MapFlags::BpfExist).unwrap();
    assert_eq!(MapLike::lookup(&m, &mut k, &1u32).unwrap().into_single(), 3);
}

#[test]
fn test_delete_is_refused_on_every_array_kind_without_a_call() {
    let mut k = Kernel::new(true);
    for kind in [MapType::Array, MapType::ArrayOfMaps, MapType::ProgArray, MapType::PerfEventArray]
    {
        let creation = XDPMap::<u32, u32>::create(kind, 4, 4, 10, 0, true).unwrap();
        let out = k.create(&creation.call());
        let m = XDPMap::finish_create(creation, out).unwrap();
        MapLike::update(&m, &mut k, &3u32, &33u32, MapFlags::BpfAny).unwrap();
        let calls = k.calls;
        for key in [0u32, 3, 9, 10, u32::MAX] {
            let e = MapLike::delete(&m, &mut k, &key).err().unwrap();
            assert_eq!(e.code(), EINVAL);
            assert!(e.description().starts_with("Delete not supported on this map type: "));
        }
        assert_eq!(k.calls, calls);
        assert_eq!(MapLike::lookup(&m, &mut k, &3u32).unwrap().into_single(), 33);
    }
    let pc = per_cpu_map(&mut k, MapType::PerCPUArray, true, 10);
    let calls = k.calls;
    let e = MapLike::delete(&pc, &mut k, &0u32).err().unwrap();
    assert_eq!(e.code(), EINVAL);
    assert_eq!(k.calls, calls);
    let e = MapLike::lookup_and_delete_batch(&pc, &mut k, 5, None).err().unwrap();
    assert_eq!(e.code(), EINVAL);
    let m = array_map(&mut k, true, 10);
    let calls = k.calls;
    let e = MapLike::lookup_and_delete_batch(&m, &mut k, 5, None).err().unwrap();
    assert_eq!(e.code(), EINVAL);
    assert!(e.description().starts_with("Delete not supported on this map type: "));
    assert_eq!(k.calls, calls);
}

#[test]
fn test_delete_call_for_other_kinds() {
    let mut k = Kernel::new(true);
    let m = hash_map(&mut k, true, 10);
    let call = m.delete(&5u32).unwrap();
    assert_eq!((call.fd, call.key), (m.map_fd(), 5));
    let e = MapLike::delete(&m, &mut k, &5u32).err().unwrap();
    assert_eq!(e.code(), ENOENT);
    assert!(e.description().starts_with("Error deleting elem: "));
}

#[test]
fn test_without_batch_calls_update_batch_updates_every_element() {
    let mut k = Kernel::new(false);
    let m = hash_map(&mut k, false, 10);
    assert!(!m.batching_supported());
    assert!(m.update_batching_not_supported());
    let mut keys: Vec<u32> = vec![5, 3, 8, 1];
    let mut vals: Vec<u32> = vec![50, 30, 80, 10];
    let calls = k.calls;
    let n = MapLike::update_batch(&m, &mut k, &mut keys, &mut vals, MapFlags::BpfAny).unwrap();
    assert_eq!(n, 4);
    assert_eq!(k.calls, calls + 4);
    for i in 0..4 {
        assert_eq!(MapLike::lookup(&m, &mut k, &keys[i]).unwrap().into_single(), vals[i]);
    }
    let calls = k.calls;
    let e = MapLike::lookup_batch(&m, &mut k, 10, None).err().unwrap();
    assert_eq!(e.code(), 95);
    assert!(e.description().starts_with("Batching not supported: "));
    let e = MapLike::lookup_and_delete_batch(&m, &mut k, 10, None).err().unwrap();
    assert_eq!(e.code(), 95);
    assert_eq!(k.calls, calls);

    let pc = per_cpu_map(&mut k, MapType::PerCPUHash, false, 10);
    let n = MapLike::update_batch(&pc, &mut k, &mut keys, &mut vals, MapFlags::BpfAny).unwrap();
    assert_eq!(n, 4);
    for i in 0..4 {
        let got = MapLike::lookup(&pc, &mut k, &keys[i]).unwrap();
        assert_eq!(got, MapValue::Multi(vec![vals[i]; NUM_CPUS]));
    }
    let e = MapLike::lookup_batch(&pc, &mut k, 10, None).err().unwrap();
    assert_eq!(e.code(), 95);
}

#[test]
fn test_update_plan_steps() {
    let mut k = Kernel::new(true);
    let m = hash_map(&mut k, false, 10);
    let keys: Vec<u32> = vec![1, 2, 3];
    let vals: Vec<u32> = vec![1, 2, 3];
    let mut plan = m.update_batch(&keys, &vals, MapFlags::BpfAny).unwrap();
    assert_eq!(plan.step(), UpdateStep::One(0));
    plan.advance(UpdateEvent::Bulk(Ok(9)));
    assert_eq!(plan.step(), UpdateStep::One(0));
    plan.advance(UpdateEvent::One(Ok(())));
    assert_eq!(plan.step(), UpdateStep::One(1));
    plan.advance(UpdateEvent::One(Ok(())));
    assert_eq!(plan.step(), UpdateStep::One(2));
    plan.advance(UpdateEvent::One(Ok(())));
    assert_eq!(plan.step(), UpdateStep::Done);
    plan.advance(UpdateEvent::One(Ok(())));
    assert_eq!(plan.step(), UpdateStep::Done);
    assert_eq!(plan.finish().unwrap(), 3);

    let none: Vec<u32> = Vec::new();
    let plan = m.update_batch(&none, &none, MapFlags::BpfAny).unwrap();
    assert_eq!(plan.step(), UpdateStep::Done);
    assert_eq!(plan.finish().unwrap(), 0);

    let with = hash_map(&mut k, true, 10);
    let mut plan = with.update_batch(&keys, &vals, MapFlags::BpfAny).unwrap();
    assert_eq!(plan.step(), UpdateStep::Bulk);
    plan.advance(UpdateEvent::One(Ok(())));
    assert_eq!(plan.step(), UpdateStep::Bulk);
    plan.advance(UpdateEvent::Bulk(Ok(2)));
    assert_eq!(plan.step(), UpdateStep::Done);
    assert_eq!(plan.finish().unwrap(), 2);

    let pc_array = per_cpu_map(&mut k, MapType::PerCPUArray, true, 10);
    assert!(pc_array.update_batching_not_supported());
    let plan = pc_array.update_batch(&keys, &vals, MapFlags::BpfAny).unwrap();
    assert_eq!(plan.step(), UpdateStep::One(0));
    let pc_hash = per_cpu_map(&mut k, MapType::PerCPUHash, true, 10);
    assert!(!pc_hash.update_batching_not_supported());
    let plan = pc_hash.update_batch(&keys, &vals, MapFlags::BpfAny).unwrap();
    assert_eq!(plan.step(), UpdateStep::Bulk);
}

#[test]
fn test_update_batch_stops_at_the_first_failure() {
    let mut k = Kernel::new(false);
    let m = hash_map(&mut k, false, 2);
    let mut keys: Vec<u32> = vec![1, 2, 3, 4];
    let mut vals: Vec<u32> = vec![10, 20, 30, 40];
    let calls = k.calls;
    let e = MapLike::update_batch(&m, &mut k, &mut keys, &mut vals, MapFlags::BpfAny)
        .err()
        .unwrap();
    assert_eq!(e.code(), E2BIG);
    assert!(e.description().starts_with("Error updating elem: "));
    assert_eq!(k.calls, calls + 3);
    assert_eq!(MapLike::lookup(&m, &mut k, &1u32).unwrap().into_single(), 10);
    assert_eq!(MapLike::lookup(&m, &mut k, &2u32).unwrap().into_single(), 20);
    assert!(MapLike::lookup(&m, &mut k, &3u32).is_err());
    assert!(MapLike::lookup(&m, &mut k, &4u32).is_err());
}

#[test]
fn test_update_batch_refuses_keys_and_values_of_different_numbers() {
    let mut k = Kernel::new(true);
    let m = hash_map(&mut k, true, 10);
    let mut keys: Vec<u32> = vec![1, 2];
    let mut vals: Vec<u32> = vec![10];
    let calls = k.calls;
    let e = MapLike::update_batch(&m, &mut k, &mut keys, &mut vals, MapFlags::BpfAny)
        .err()
        .unwrap();
    assert_eq!(e.code(), EINVAL);
    assert_eq!(
        e.description(),
        "Num keys must match num values. Got 2 keys, 1 values: Invalid argument"
    );
    assert_eq!(k.calls, calls);
    let pc = per_cpu_map(&mut k, MapType::PerCPUHash, true, 10);
    let mut vals: Vec<u32> = vec![10, 20, 30];
    let e = MapLike::update_batch(&pc, &mut k, &mut keys, &mut vals, MapFlags::BpfAny)
        .err()
        .unwrap();
    assert_eq!(e.code(), EINVAL);
    assert!(e.description().starts_with("Num keys must match num values. Got 2 keys, 3 values: "));
}

#[test]
fn test_update_batch_in_one_call() {
    let mut k = Kernel::new(true);
    let m = hash_map(&mut k, true, 10);
    let keys: Vec<u32> = vec![4, 5, 6];
    let vals: Vec<u32> = vec![40, 50, 60];
    let call = m.update_batch_impl(&keys, &vals, MapFlags::BpfNoExist);
    assert_eq!(call.fd, m.map_fd());
    assert_eq!(call.keys, keys);
    assert_eq!(call.values, vals);
    assert_eq!(call.count, 3);
    assert_eq!(call.elem_flags, 1);
    assert_eq!(m.finish_update_batch(call, Outcome { rc: 0, errno: 0 }).unwrap(), 3);
    let mut call = m.update_batch_impl(&keys, &vals, MapFlags::BpfAny);
    call.count = 2;
    assert_eq!(m.finish_update_batch(call, Outcome { rc: 0, errno: 0 }).unwrap(), 2);
    let call = m.update_batch_impl(&keys, &vals, MapFlags::BpfAny);
    let e = m.finish_update_batch(call, failed(E2BIG)).err().unwrap();
    assert_eq!(e.code(), E2BIG);
    assert!(e.description().starts_with("Error updating batch of elements: "));

    let pc = per_cpu_map(&mut k, MapType::PerCPUHash, true, 10);
    let call = pc.update_batch_impl(&keys, &vals, MapFlags::BpfAny);
    assert_eq!(call.keys, keys);
    assert_eq!(call.count, 3);
    let mut flat: Vec<u8> = Vec::new();
    for v in [40u8, 50, 60] {
        for _ in 0..NUM_CPUS {
            flat.extend_from_slice(&[v, 0, 0, 0, 0, 0, 0, 0]);
        }
    }
    assert_eq!(call.values, flat);
}

#[test]
fn test_batch_answers() {
    let mut k = Kernel::new(true);
    let m = hash_map(&mut k, true, 10);
    let call = m.lookup_batch(4, Some(7)).unwrap();
    assert_eq!((call.fd, call.next_key, call.count, call.delete), (m.map_fd(), Some(7), 4, false));
    assert_eq!((call.keys.len(), call.values.len()), (4, 4));
    let call = m.lookup_and_delete_batch(4, None).unwrap();
    assert_eq!((call.next_key, call.delete), (None, true));

    let filled = |count: u32, nkey: u32| {
        let mut call = m.lookup_batch(4, None).unwrap();
        call.keys = vec![1, 2, 3, 4];
        call.values = vec![10, 20, 30, 40];
        call.count = count;
        call.nkey = nkey;
        call
    };
    // The kernel took the call: the elements it counted, the last first.
    let r = m.finish_lookup_batch(filled(3, 9), Outcome { rc: 0, errno: 0 }).unwrap();
    assert_eq!(r.num_items, 3);
    assert_eq!(r.next_key, Some(9));
    assert_eq!(pairs(r.items), vec![(3, vec![30]), (2, vec![20]), (1, vec![10])]);
    // Fewer than asked for, and none, is no failure.
    let r = m.finish_lookup_batch(filled(0, 9), Outcome { rc: 0, errno: 0 }).unwrap();
    assert_eq!((r.num_items, r.next_key, r.items.len()), (0, Some(9), 0));
    // No more entries: a clean end. The batch counts, and there is no key to go on from.
    let r = m.finish_lookup_batch(filled(2, 9), failed(ENOENT)).unwrap();
    assert_eq!((r.num_items, r.next_key), (2, None));
    assert_eq!(pairs(r.items), vec![(2, vec![20]), (1, vec![10])]);
    let r = m.finish_lookup_batch(filled(0, 9), failed(ENOENT)).unwrap();
    assert_eq!((r.num_items, r.next_key, r.items.len()), (0, None, 0));
    // Invalid argument: a clean end as well.
    let r = m.finish_lookup_batch(filled(1, 5), failed(EINVAL)).unwrap();
    assert_eq!((r.num_items, r.next_key), (1, None));
    assert_eq!(pairs(r.items), vec![(1, vec![10])]);
    let r = m.finish_lookup_batch(filled(0, 5), failed(EINVAL)).unwrap();
    assert_eq!((r.num_items, r.next_key, r.items.len()), (0, None, 0));
    // An error number that a call which went through left behind ends nothing.
    for stale in [ENOENT, EINVAL, 28, 524] {
        let r = m.finish_lookup_batch(filled(2, 9), Outcome { rc: 0, errno: stale }).unwrap();
        assert_eq!((r.num_items, r.next_key), (2, Some(9)));
        let r = m.finish_lookup_batch(filled(0, 3), Outcome { rc: 7, errno: stale }).unwrap();
        assert_eq!((r.num_items, r.next_key), (0, Some(3)));
    }
    // Anything else is a failure, with the kernel's number.
    for errno in [0, 1, 9, 14, 21, 23, 28, 38] {
        let e = m.finish_lookup_batch(filled(2, 9), failed(errno)).err().unwrap();
        assert_eq!(e.code(), errno);
        assert!(e.description().starts_with("Error looking up batch of elements: "));
    }
    let e = m.finish_lookup_batch(filled(2, 9), failed(524)).err().unwrap();
    assert_eq!(e.code(), 95);
}

#[test]
fn test_per_cpu_batch_keeps_the_order_of_the_cpus() {
    let mut k = Kernel::new(true);
    let pc = per_cpu_map(&mut k, MapType::PerCPUHash, true, 10);
    let mut call = pc.lookup_batch(3, None).unwrap();
    assert_eq!(call.keys.len(), 3);
    assert_eq!(call.values.len(), 3 * NUM_CPUS * 8);
    call.keys = vec![7, 8, 9];
    for e in 0..3usize {
        for cpu in 0..NUM_CPUS {
            call.values[(e * NUM_CPUS + cpu) * 8] = (10 * (e + 1) + cpu) as u8;
        }
    }
    call.count = 2;
    call.nkey = 4;
    let r = pc.finish_lookup_batch(call, failed(ENOENT)).unwrap();
    assert_eq!((r.num_items, r.next_key), (2, None));
    assert_eq!(pairs(r.items), vec![(8, vec![20, 21, 22, 23]), (7, vec![10, 11, 12, 13])]);
}

#[test]
fn test_every_key_comes_once_over_chained_batches() {
    for batch_size in [1u32, 3, 4, 10, 11, 50] {
        let mut k = Kernel::new(true);
        let m = hash_map(&mut k, true, 16);
        let pc = per_cpu_map(&mut k, MapType::PerCPUHash, true, 16);
        for key in 0..10u32 {
            MapLike::update(&m, &mut k, &(key * 7), &key, MapFlags::BpfAny).unwrap();
            MapLike::update(&pc, &mut k, &(key * 7), &key, MapFlags::BpfAny).unwrap();
        }
        for handle in [&m as &dyn MapLike<u32>, &pc as &dyn MapLike<u32>] {
            let mut seen: Vec<u32> = Vec::new();
            let mut next_key = None;
            let mut rounds = 0;
            let mut counted = 0;
            loop {
                let r = handle.lookup_batch(&mut k, batch_size, next_key).unwrap();
                assert!(r.num_items <= batch_size);
                assert_eq!(r.items.len(), r.num_items as usize);
                counted += r.num_items;
                for kv in r.items {
                    assert_eq!(kv.value.into_vec()[0] * 7, kv.key);
                    seen.push(kv.key);
                }
                rounds += 1;
                assert!(rounds <= 11);
                if r.next_key.is_none() {
                    break;
                }
                next_key = r.next_key;
            }
            assert_eq!(counted, 10);
            assert_eq!(rounds, (10 + batch_size as usize - 1) / batch_size as usize);
            seen.sort();
            assert_eq!(seen, (0..10u32).map(|key| key * 7).collect::<Vec<u32>>());
        }
    }
}

#[test]
fn test_walk_is_chosen_by_kind_size_and_batch_calls() {
    let mut k = Kernel::new(true);
    let first = |m: &XDPMap<u32, u32>| format!("{:?}", m.items().step());
    assert_eq!(first(&hash_map(&mut k, true, 49)), "NextKey(None)");
    assert_eq!(first(&hash_map(&mut k, true, 50)), "LookupBatch { batch_size: 100, next_key: None }");
    assert_eq!(first(&hash_map(&mut k, false, 50)), "NextKey(None)");
    assert_eq!(first(&hash_map(&mut k, false, 5000)), "NextKey(None)");
    assert_eq!(first(&array_map(&mut k, true, 50)), "LookupBatch { batch_size: 100, next_key: None }");
    assert_eq!(format!("{:?}", hash_map(&mut k, true, 50)._items().step()), "NextKey(None)");
    let creation = XDPMap::<u32, i32>::create(MapType::DevMap, 4, 4, 500, 0, true).unwrap();
    let out = k.create(&creation.call());
    let dev = XDPMap::finish_create(creation, out).unwrap();
    assert_eq!(format!("{:?}", dev.items().step()), "NextKey(None)");

    let pc = |k: &mut Kernel, kind, batching, max| {
        format!("{:?}", per_cpu_map(k, kind, batching, max).items().step())
    };
    assert_eq!(pc(&mut k, MapType::PerCPUHash, true, 49), "NextKey(None)");
    assert_eq!(
        pc(&mut k, MapType::PerCPUHash, true, 50),
        "LookupBatch { batch_size: 100, next_key: None }"
    );
    assert_eq!(pc(&mut k, MapType::PerCPUHash, false, 50), "NextKey(None)");
    assert_eq!(pc(&mut k, MapType::PerCPUArray, true, 500), "NextKey(None)");
}

#[test]
fn test_array_items_are_dense_from_key_zero() {
    for n in [1u32, 2, 10, 49, 50, 51, 130] {
        for batching in [false, true] {
            let mut k = Kernel::new(batching);
            let m = array_map(&mut k, batching, n);
            let pc = per_cpu_map(&mut k, MapType::PerCPUArray, batching, n);
            if n > 1 {
                MapLike::update(&m, &mut k, &(n - 1), &77u32, MapFlags::BpfAny).unwrap();
                MapLike::update(&pc, &mut k, &(n - 1), &77u32, MapFlags::BpfAny).unwrap();
            }
            for handle in [&m as &dyn MapLike<u32>, &pc as &dyn MapLike<u32>] {
                let items = handle.items(&mut k).unwrap();
                assert_eq!(items.len(), n as usize);
                let mut keys: Vec<u32> = items.iter().map(|kv| kv.key).collect();
                keys.sort();
                assert_eq!(keys, (0..n).collect::<Vec<u32>>());
                for kv in items {
                    let expected = if n > 1 && kv.key == n - 1 { 77 } else { 0 };
                    assert_eq!(kv.value.into_vec()[0], expected);
                }
            }
        }
    }
}

#[test]
fn test_key_by_key_walk_of_an_array_is_in_order() {
    let mut k = Kernel::new(false);
    let m = array_map(&mut k, false, 7);
    let keys: Vec<u32> = MapLike::items(&m, &mut k).unwrap().iter().map(|kv| kv.key).collect();
    assert_eq!(keys, vec![0, 1, 2, 3, 4, 5, 6]);
}

#[test]
fn test_both_walks_find_the_same_items() {
    for filled in [0u32, 1, 7, 99, 100, 101, 250] {
        let mut k = Kernel::new(true);
        let bulk = hash_map(&mut k, true, 300);
        let linear = hash_map(&mut k, false, 300);
        let pc_bulk = per_cpu_map(&mut k, MapType::PerCPUHash, true, 300);
        let pc_linear = per_cpu_map(&mut k, MapType::PerCPUHash, false, 300);
        for i in 0..filled {
            let key = i * 13 % 1009;
            for handle in [&bulk as &dyn MapLike<u32>, &linear, &pc_bulk, &pc_linear] {
                handle.update(&mut k, &key, &(key + 1), MapFlags::BpfAny).unwrap();
            }
        }
        assert!(format!("{:?}", bulk.items().step()).starts_with("LookupBatch"));
        assert!(format!("{:?}", linear.items().step()).starts_with("NextKey"));
        let mut a = pairs(MapLike::items(&bulk, &mut k).unwrap());
        let mut b = pairs(MapLike::items(&linear, &mut k).unwrap());
        assert_eq!(a.len(), filled as usize);
        a.sort();
        b.sort();
        assert_eq!(a, b);
        let mut a = pairs(MapLike::items(&pc_bulk, &mut k).unwrap());
        let mut b = pairs(MapLike::items(&pc_linear, &mut k).unwrap());
        assert_eq!(a.len(), filled as usize);
        a.sort();
        b.sort();
        assert_eq!(a, b);
        for (key, values) in a {
            assert_eq!(values, vec![key + 1; NUM_CPUS]);
        }
    }
}

#[test]
fn test_walk_passes_over_lost_references_only() {
    let mut k = Kernel::loaded(true);
    let dev: XDPMap<u32, i32> = open_map(&mut k, DEV_MAP).unwrap();
    MapLike::update(&dev, &mut k, &2u32, &12i32, MapFlags::BpfAny).unwrap();
    MapLike::update(&dev, &mut k, &7u32, &17i32, MapFlags::BpfAny).unwrap();
    let items = MapLike::items(&dev, &mut k).unwrap();
    let found: Vec<(u32, i32)> =
        items.into_iter().map(|kv| (kv.key, kv.value.into_single())).collect();
    assert_eq!(found, vec![(2, 12), (7, 17)]);

    // Any other kind stops at the first value that cannot be read.
    let mut walk: ItemsWalk<u32, u32> = ItemsWalk::linear(false);
    walk.advance(WalkEvent::Key(Ok(4)));
    walk.advance(WalkEvent::Value(Ok(MapValue::Single(40))));
    walk.advance(WalkEvent::Key(Ok(5)));
    let e = rxdp::XDPError::with_errno("Error looking up elem", ENOENT);
    walk.advance(WalkEvent::Value(Err(e)));
    assert_eq!(format!("{:?}", walk.step()), "Done");
    let e = walk.finish().err().unwrap();
    assert_eq!(e.code(), ENOENT);

    // A walk that passes over lost references goes on with the next key.
    let mut walk: ItemsWalk<u32, u32> = ItemsWalk::linear(true);
    walk.advance(WalkEvent::Key(Ok(4)));
    let e = rxdp::XDPError::with_errno("Error looking up elem", ENOENT);
    walk.advance(WalkEvent::Value(Err(e)));
    assert_eq!(format!("{:?}", walk.step()), "NextKey(Some(4))");
    walk.advance(WalkEvent::Key(Ok(5)));
    walk.advance(WalkEvent::Value(Ok(MapValue::Single(50))));
    let e = rxdp::XDPError::with_errno("Error getting next key", ENOENT);
    walk.advance(WalkEvent::Key(Err(e)));
    assert_eq!(pairs(walk.finish().unwrap()), vec![(5, vec![50])]);
}

#[test]
fn test_walk_steps() {
    let mut walk: ItemsWalk<u32, u32> = ItemsWalk::linear(false);
    assert_eq!(format!("{:?}", walk.step()), "NextKey(None)");
    // An answer to something else changes nothing.
    walk.advance(WalkEvent::Value(Ok(MapValue::Single(1))));
    assert_eq!(format!("{:?}", walk.step()), "NextKey(None)");
    walk.advance(WalkEvent::Key(Ok(9)));
    assert_eq!(format!("{:?}", walk.step()), "Lookup(9)");
    walk.advance(WalkEvent::Key(Ok(10)));
    assert_eq!(format!("{:?}", walk.step()), "Lookup(9)");
    walk.advance(WalkEvent::Value(Ok(MapValue::Single(90))));
    assert_eq!(format!("{:?}", walk.step()), "NextKey(Some(9))");
    let e = rxdp::XDPError::with_errno("Error getting next key", ENOENT);
    walk.advance(WalkEvent::Key(Err(e)));
    assert_eq!(format!("{:?}", walk.step()), "Done");
    walk.advance(WalkEvent::Key(Ok(10)));
    assert_eq!(format!("{:?}", walk.step()), "Done");
    assert_eq!(pairs(walk.finish().unwrap()), vec![(9, vec![90])]);

    let batch = |keys: Vec<u32>, next_key: Option<u32>| {
        let num_items = keys.len() as u32;
        let items =
            keys.into_iter().map(|key| KeyValue { key, value: MapValue::Single(key) }).collect();
        BatchResult { items, next_key, num_items }
    };
    let mut walk: ItemsWalk<u32, u32> = ItemsWalk::bulk();
    assert_eq!(format!("{:?}", walk.step()), "LookupBatch { batch_size: 100, next_key: None }");
    walk.advance(WalkEvent::Batch(Ok(batch(vec![3, 2, 1], Some(17)))));
    assert_eq!(format!("{:?}", walk.step()), "LookupBatch { batch_size: 100, next_key: Some(17) }");
    walk.advance(WalkEvent::Batch(Ok(batch(vec![], Some(0)))));
    assert_eq!(format!("{:?}", walk.step()), "LookupBatch { batch_size: 100, next_key: Some(0) }");
    walk.advance(WalkEvent::Batch(Ok(batch(vec![5, 4], None))));
    assert_eq!(format!("{:?}", walk.step()), "Done");
    let keys: Vec<u32> = walk.finish().unwrap().into_iter().map(|kv| kv.key).collect();
    assert_eq!(keys, vec![3, 2, 1, 5, 4]);

    let mut walk: ItemsWalk<u32, u32> = ItemsWalk::bulk();
    walk.advance(WalkEvent::Batch(Ok(batch(vec![3, 2, 1], Some(17)))));
    let e = rxdp::XDPError::with_errno("Error looking up batch of elements", 14);
    walk.advance(WalkEvent::Batch(Err(e)));
    assert_eq!(format!("{:?}", walk.step()), "Done");
    assert_eq!(walk.finish().err().unwrap().code(), 14);
}

#[test]
fn test_next_key_calls() {
    let mut k = Kernel::new(true);
    let m = hash_map(&mut k, true, 10);
    let call = m.get_next_key(None);
    assert_eq!((call.fd, call.prev), (m.map_fd(), None));
    let mut call = m.get_next_key(Some(5));
    assert_eq!(call.prev, Some(5));
    call.key = 6;
    assert_eq!(m.finish_get_next_key(call, Outcome { rc: 0, errno: 0 }).unwrap(), 6);
    let call = m.get_next_key(Some(5));
    let e = m.finish_get_next_key(call, failed(ENOENT)).err().unwrap();
    assert_eq!(e.code(), ENOENT);
    assert!(e.description().starts_with("Error getting next key: "));
}

#[test]
fn test_handles_are_checked_when_they_are_made() {
    let mut k = Kernel::loaded(true);
    // Kinds.
    let e = XDPMap::<u32, u32>::create(MapType::PerCPUHash, 4, 4, 10, 0, true).err().unwrap();
    assert_eq!(e.code(), EINVAL);
    assert_eq!(e.description(), "Improper map type, use rxdp::PerCpuMap::create: Invalid argument");
    let e = PerCpuMap::<u32, u32>::create(MapType::Hash, 4, 4, 10, 0, 4, true).err().unwrap();
    assert_eq!(e.code(), EINVAL);
    assert_eq!(e.description(), "Improper map type, use rxdp::Map::create: Invalid argument");
    let e = open_map::<u32>(&mut k, MAP_PERCPU_HASH).err().unwrap();
    assert_eq!(e.code(), EINVAL);
    assert_eq!(e.description(), "Improper map type, use rxdp::PerCPUMap::new: Invalid argument");
    let e = open_per_cpu_map(&mut k, MAP_HASH).err().unwrap();
    assert_eq!(e.code(), EINVAL);
    assert_eq!(e.description(), "Improper map type, use rxdp::Map::new: Invalid argument");
    // Sizes.
    let e = XDPMap::<u32, u32>::create(MapType::Hash, 8, 4, 10, 0, true).err().unwrap();
    assert!(e
        .description()
        .starts_with("Incorrect key size, XDP map has size: 8, requested key size is 4.: "));
    let e = XDPMap::<u32, u64>::create(MapType::Hash, 4, 4, 10, 0, true).err().unwrap();
    assert!(e
        .description()
        .starts_with("Incorrect value size, XDP map has size: 4, requested value size is 8.: "));
    let e = PerCpuMap::<u64, u32>::create(MapType::PerCPUHash, 4, 4, 10, 0, 4, true).err().unwrap();
    assert!(e
        .description()
        .starts_with("Incorrect key size, XDP map has size: 4, requested key size is 8.: "));
    let e =
        PerCpuMap::<u32, u128>::create(MapType::PerCPUHash, 4, 4, 10, 0, 4, true).err().unwrap();
    assert!(e
        .description()
        .starts_with("Incorrect value size, XDP map has size: 4, requested value size is 16.: "));
    let found = k.find_map(MAP_HASH);
    let e = XDPMap::<u64, u32>::new(found, MAP_HASH, true).err().unwrap();
    assert!(e
        .description()
        .starts_with("Incorrect key size, XDP map has size: 4, requested key size is 8.: "));
    let e = XDPMap::<u32, u16>::new(found, MAP_HASH, true).err().unwrap();
    assert!(e
        .description()
        .starts_with("Incorrect value size, XDP map has size: 4, requested value size is 2.: "));
    let found = k.find_map(MAP_PERCPU_HASH);
    let e = PerCpuMap::<u32, u64>::new(found, MAP_PERCPU_HASH, 4, true).err().unwrap();
    assert!(e
        .description()
        .starts_with("Incorrect value size, XDP map has size: 4, requested value size is 8.: "));
    // Names.
    let e = open_map::<u32>(&mut k, "no_such").err().unwrap();
    assert!(e.description().starts_with("Unable to find map with name 'no_such': "));
    let closed = MapDescriptor { map_fd: -1, key_size: 4, value_size: 4, map_type: 1, max_entries: 10 };
    let e = XDPMap::<u32, u32>::new(Some(closed), "closed", true).err().unwrap();
    assert!(e.description().starts_with("Unable to find map with name 'closed': "));
    // What a handle knows.
    let m: XDPMap<u32, u32> = open_map(&mut k, MAP_HASH_BIG).unwrap();
    let found = k.find_map(MAP_HASH_BIG).unwrap();
    assert_eq!((m.map_fd(), m.map_type(), m.max_entries()), (found.map_fd, MapType::Hash, 256));
    assert!(m.batching_supported());
    let m = XDPMap::<u32, u32>::new(Some(found), MAP_HASH_BIG, false).unwrap();
    assert!(!m.batching_supported());
    let pc: PerCpuMap<u32, u32> = open_per_cpu_map(&mut k, MAP_PERCPU_LRU_HASH).unwrap();
    assert_eq!((pc.map_type(), pc.max_entries()), (MapType::LRUPerCPUHash, 10));
    assert_eq!((pc.value_size(), pc.num_cpus()), (8, NUM_CPUS));
    let pc = PerCpuMap::<u32, u128>::create(MapType::PerCPUHash, 4, 16, 10, 0, 2, false).unwrap();
    assert_eq!(pc.call().value_size, 16);
}

#[test]
fn test_create_call_and_its_answer() {
    let creation = XDPMap::<u32, u32>::create(MapType::LRUHash, 4, 4, 77, 5, true).unwrap();
    let call = creation.call();
    assert_eq!(
        (call.map_type, call.key_size, call.value_size, call.max_entries, call.map_flags),
        (MapType::LRUHash, 4, 4, 77, 5)
    );
    let m = XDPMap::finish_create(creation, Outcome { rc: 9, errno: 0 }).unwrap();
    assert_eq!((m.map_fd(), m.map_type(), m.max_entries()), (9, MapType::LRUHash, 77));
    let creation = XDPMap::<u32, u32>::create(MapType::LRUHash, 4, 4, 77, 5, true).unwrap();
    let e = XDPMap::finish_create(creation, failed(1)).err().unwrap();
    assert_eq!(e.code(), 1);
    assert!(e.description().starts_with("Error creating new map: "));
    let creation =
        PerCpuMap::<u32, u64>::create(MapType::PerCPUArray, 4, 8, 3, 0, 2, false).unwrap();
    let m = PerCpuMap::finish_create(creation, Outcome { rc: 4, errno: 0 }).unwrap();
    assert_eq!((m.map_fd(), m.map_type(), m.max_entries()), (4, MapType::PerCPUArray, 3));
    let creation =
        PerCpuMap::<u32, u64>::create(MapType::PerCPUArray, 4, 8, 3, 0, 2, false).unwrap();
    let e = PerCpuMap::finish_create(creation, failed(12)).err().unwrap();
    assert_eq!(e.code(), 12);
}

#[test]
fn test_probe_finds_the_batch_calls() {
    let mut with = Kernel::new(true);
    assert!(probe(&mut with));
    assert_eq!(with.maps.len(), 1);
    assert_eq!(with.maps[0].elements, vec![(0u32, vec![0u8; 4])]);
    let mut without = Kernel::new(false);
    assert!(!probe(&mut without));
}

#[test]
fn test_probe_steps() {
    assert_eq!(RXDP_BATCH_ENV, "rxdp_batching_supported");
    let p = check_batching_supported(Some("0"));
    assert_eq!(p.step(), ProbeStep::Done(false));
    assert_eq!(p.supported(), Some(false));
    assert!(!rxdp::is_batching_supported(&p));
    for cached in [None, Some("1"), Some(""), Some("00"), Some("yes"), Some(" 0")] {
        let p = check_batching_supported(cached);
        assert_eq!(p.step(), ProbeStep::Create);
        assert_eq!(p.supported(), None);
    }
    for answers in [[true, true, true], [false, true, true], [true, false, true], [true, true, false]] {
        let mut p = CapabilityProbe::new();
        let mut asked = Vec::new();
        for ok in answers {
            asked.push(p.step());
            p.advance(ok);
        }
        let first_failure = answers.iter().position(|ok| !ok);
        let expected = first_failure.is_none();
        assert_eq!(p.step(), ProbeStep::Done(expected));
        assert_eq!(p.supported(), Some(expected));
        assert_eq!(rxdp::is_batching_supported(&p), expected);
        let steps = [ProbeStep::Create, ProbeStep::Update, ProbeStep::LookupBatch];
        for (i, step) in asked.iter().enumerate() {
            match first_failure {
                Some(f) if i > f => assert_eq!(*step, ProbeStep::Done(false)),
                _ => assert_eq!(*step, steps[i]),
            }
        }
    }
    let mut p = CapabilityProbe::forced(true);
    assert!(rxdp::is_batching_supported(&p));
    p.advance(false);
    assert!(rxdp::is_batching_supported(&p));
    let mut p = CapabilityProbe::forced(false);
    p.advance(true);
    assert_eq!(p.supported(), Some(false));
    assert_eq!(cache_value(true), "1");
    assert_eq!(cache_value(false), "0");

    let creation = rxdp::capability::probe_create().unwrap();
    let call = creation.call();
    assert_eq!(
        (call.map_type, call.key_size, call.value_size, call.max_entries, call.map_flags),
        (MapType::Hash, 4, 4, 10, 0)
    );
    let m = XDPMap::finish_create(creation, Outcome { rc: 5, errno: 0 }).unwrap();
    assert!(!m.batching_supported());
    let call = rxdp::capability::probe_update(&m);
    assert_eq!((call.fd, call.key, call.value, call.flags), (5, 0, 0, 0));
    let call = rxdp::capability::probe_lookup_batch(&m);
    assert_eq!((call.fd, call.next_key, call.count, call.delete), (5, None, 10, false));
}

/// The calls of one handle, made through what both kinds of handle share.
fn calls_through_the_interface<M: rxdp::MapLike<u32, u32>>(m: &M, array: bool, bulk: bool)
where
    M::Value: std::fmt::Debug,
{
    let call = m.update(&4u32, &44u32, MapFlags::BpfExist);
    assert_eq!((call.fd, call.key, call.flags), (m.map_fd(), 4, 2));
    assert!(m.finish_update(OK).is_ok());
    assert_eq!(m.finish_update(failed(E2BIG)).err().unwrap().code(), E2BIG);
    let call = m.lookup(&4u32);
    assert_eq!((call.fd, call.key), (m.map_fd(), 4));
    assert_eq!(m.finish_lookup(call, failed(ENOENT)).err().unwrap().code(), ENOENT);
    assert_eq!(m.delete(&4u32).is_err(), array);
    assert_eq!(m.map_type().is_array(), array);
    assert!(m.finish_delete(OK).is_ok());
    let mut call = m.get_next_key(Some(4));
    assert_eq!((call.fd, call.prev), (m.map_fd(), Some(4)));
    call.key = 5;
    assert_eq!(m.finish_get_next_key(call, OK).unwrap(), 5);
    let keys: Vec<u32> = vec![1, 2];
    let vals: Vec<u32> = vec![10, 20];
    assert_eq!(m.update_batching_not_supported(), !bulk);
    let plan = m.update_batch(&keys, &vals, MapFlags::BpfAny).unwrap();
    assert_eq!(plan.step(), if bulk { UpdateStep::Bulk } else { UpdateStep::One(0) });
    assert_eq!(m.update_batch(&keys, &vec![1u32], MapFlags::BpfAny).err().unwrap().code(), EINVAL);
    let call = m.update_batch_impl(&keys, &vals, MapFlags::BpfNoExist);
    assert_eq!((call.fd, call.count, call.elem_flags), (m.map_fd(), 2, 1));
    assert_eq!(call.keys, keys);
    assert_eq!(m.finish_update_batch(call, OK).unwrap(), 2);
    let call = m.lookup_batch(6, Some(3)).unwrap();
    assert_eq!((call.fd, call.next_key, call.count, call.delete), (m.map_fd(), Some(3), 6, false));
    assert_eq!(call.keys.len(), 6);
    assert_eq!(m.lookup_and_delete_batch(6, None).is_err(), array);
    let mut call = m.lookup_batch_impl(3, None, true);
    assert!(call.delete);
    call.keys = vec![7, 8, 9];
    call.count = 2;
    call.nkey = 1;
    let r = m.finish_lookup_batch(call, failed(ENOENT)).unwrap();
    assert_eq!((r.num_items, r.next_key), (2, None));
    let keys: Vec<u32> = r.items.iter().map(|kv| kv.key).collect();
    assert_eq!(keys, vec![8, 7]);
    assert_eq!(format!("{:?}", m._items().step()), "NextKey(None)");
    assert_eq!(m.max_entries(), 60);
    let first = format!("{:?}", m.items().step());
    assert_eq!(first.starts_with("LookupBatch"), bulk);
}

#[test]
fn test_both_handles_through_the_interface() {
    let mut k = Kernel::new(true);
    calls_through_the_interface(&hash_map(&mut k, true, 60), false, true);
    calls_through_the_interface(&per_cpu_map(&mut k, MapType::PerCPUHash, true, 60), false, true);
    calls_through_the_interface(&per_cpu_map(&mut k, MapType::PerCPUArray, true, 60), true, false);
}
