use vstd::layout::size_of;
use vstd::prelude::*;
use vstd::string::*;
use crate::error::{decimal, decimal_string, get_errno, reported_errno, XDPError};
use crate::result::XDPResult;

verus! {

/// Holds key/value pair when getting all items from a map.
#[derive(Debug)]
pub struct KeyValue<K, V> {
    pub key: K,
    pub value: V,
}

/// Return value from eBPF maps.
#[derive(PartialEq, Eq, Debug)]
pub enum MapValue<V> {
    /// Result from cpu-shared maps.
    Single(V),
    /// Result from per-cpu maps.
    Multi(Vec<V>),
}

impl<V> MapValue<V> {
    /// The values it holds: the one of a shared map, or those of a per-CPU
    /// map in the order of the CPUs.
    pub open spec fn values(self) -> Seq<V> {
        match self {
            MapValue::Single(v) => seq![v],
            MapValue::Multi(vs) => vs@,
        }
    }

    /// Convert the map value into a `Vec<V>`.
    pub fn into_vec(self) -> (r: Vec<V>)
        ensures
            r@ == self.values(),
    {
        match self {
            MapValue::Multi(r) => r,
            MapValue::Single(r) => {
                let mut v = Vec::new();
                v.push(r);
                v
            },
        }
    }

    /// Convert the map value into a `V`. For the `Multi` variant, this will
    /// take the first element of the `Vec`, which must be there.
    pub fn into_single(self) -> (r: V)
        requires
            self.values().len() > 0,
        ensures
            r == self.values()[0],
    {
        match self {
            MapValue::Multi(mut r) => r.swap_remove(0),
            MapValue::Single(r) => r,
        }
    }
}

/// What a kernel call left behind: the number it returned, and the thread's
/// error number after it.
#[derive(Copy, Clone, Debug, PartialEq, Eq, Structural)]
pub struct Outcome {
    pub rc: i32,
    pub errno: i32,
}

impl Outcome {
    /// The outcome of the call that has just returned `rc` on this thread.
    pub fn capture(rc: i32) -> (r: Outcome)
        ensures
            r.rc == rc,
    {
        Outcome { rc, errno: get_errno() }
    }

    /// True if the kernel refused the call.
    pub open spec fn failed(self) -> bool {
        self.rc < 0
    }

    /// `ret` if the call went through, else the error about `err_msg` with
    /// the call's error number.
    pub fn check<T>(self, ret: T, err_msg: &str) -> (r: XDPResult<T>)
        ensures
            !self.failed() ==> r == Ok::<T, XDPError>(ret),
            self.failed() ==> r is Err && r->Err_0.code() == reported_errno(self.errno)
                && r->Err_0.tells(err_msg@),
    {
        if self.rc < 0 {
            Err(XDPError::with_errno(err_msg, self.errno))
        } else {
            Ok(ret)
        }
    }
}

/// `ret` if the call that has just returned `rc` on this thread went through,
/// else the error about `err_msg` with the thread's error number.
pub fn check_rc<T>(rc: i32, ret: T, err_msg: &str) -> (r: XDPResult<T>)
    ensures
        rc >= 0 ==> r == Ok::<T, XDPError>(ret),
        rc < 0 ==> r is Err && r->Err_0.code() != 524 && r->Err_0.tells(err_msg@),
{
    Outcome::capture(rc).check(ret, err_msg)
}

/// What the loader knows of a map in a loaded object.
#[derive(Copy, Clone, Debug, PartialEq, Eq, Structural)]
pub struct MapDescriptor {
    pub map_fd: i32,
    pub key_size: u32,
    pub value_size: u32,
    pub map_type: u32,
    pub max_entries: u32,
}

/// The text that says that the object holds no map of that name.
pub open spec fn no_such_map_message(map_name: Seq<char>) -> Seq<char> {
    "Unable to find map with name '"@ + map_name + "'"@
}

/// The text that says that the keys asked for have another size than the map's.
pub open spec fn key_size_message(map_size: u32, requested: nat) -> Seq<char> {
    "Incorrect key size, XDP map has size: "@ + decimal(map_size as nat)
        + ", requested key size is "@ + decimal(requested) + "."@
}

/// The text that says that the values asked for have another size than the map's.
pub open spec fn value_size_message(map_size: u32, requested: nat) -> Seq<char> {
    "Incorrect value size, XDP map has size: "@ + decimal(map_size as nat)
        + ", requested value size is "@ + decimal(requested) + "."@
}

/// The error for a map whose keys have another size than the type asked for.
pub fn key_size_error(map_size: u32, requested: usize) -> (e: XDPError)
    ensures
        e.tells(key_size_message(map_size, requested as nat)),
{
    let mut msg = String::from_str("Incorrect key size, XDP map has size: ");
    msg.append(decimal_string(map_size as i128).as_str());
    msg.append(", requested key size is ");
    msg.append(decimal_string(requested as i128).as_str());
    msg.append(".");
    XDPError::new(msg.as_str())
}

/// The error for a map whose values have another size than the type asked for.
pub fn value_size_error(map_size: u32, requested: usize) -> (e: XDPError)
    ensures
        e.tells(value_size_message(map_size, requested as nat)),
{
    let mut msg = String::from_str("Incorrect value size, XDP map has size: ");
    msg.append(decimal_string(map_size as i128).as_str());
    msg.append(", requested value size is ");
    msg.append(decimal_string(requested as i128).as_str());
    msg.append(".");
    XDPError::new(msg.as_str())
}

/// Checks what the loader found under `map_name` against the key type `K`:
/// the map must be there, with a descriptor that is open, and its keys must
/// have the size of `K`. Hands back the map's descriptor number, value size,
/// kind and capacity.
pub fn validate_map<K>(found: Option<MapDescriptor>, map_name: &str) -> (r: XDPResult<
    (i32, u32, u32, u32),
>)
    ensures
        match found {
            Some(d) if d.map_fd >= 0 => if d.key_size == size_of::<K>() {
                r == Ok::<(i32, u32, u32, u32), XDPError>(
                    (d.map_fd, d.value_size, d.map_type, d.max_entries),
                )
            } else {
                r is Err && r->Err_0.tells(key_size_message(d.key_size, size_of::<K>()))
            },
            _ => r is Err && r->Err_0.tells(no_such_map_message(map_name@)),
        },
{
    let d = match found {
        Some(d) => d,
        None => {
            return Err(no_such_map_error(map_name));
        },
    };
    if d.map_fd < 0 {
        return Err(no_such_map_error(map_name));
    }
    let req_key_size: usize = core::mem::size_of::<K>();
    if req_key_size != d.key_size as usize {
        return Err(key_size_error(d.key_size, req_key_size));
    }
    Ok((d.map_fd, d.value_size, d.map_type, d.max_entries))
}

fn no_such_map_error(map_name: &str) -> (e: XDPError)
    ensures
        e.tells(no_such_map_message(map_name@)),
{
    let mut msg = String::from_str("Unable to find map with name '");
    msg.append(map_name);
    msg.append("'");
    XDPError::new(msg.as_str())
}

} // verus!

verus! {

/// The call that makes a new map.
#[derive(Copy, Clone, Debug)]
pub struct CreateCall {
    pub map_type: crate::map_types::MapType,
    pub key_size: u32,
    pub value_size: u32,
    pub max_entries: u32,
    pub map_flags: u32,
}

/// The call that writes one element. `value` is what the kernel is to read:
/// the value itself, or for a per-CPU map the buffer with one slot per CPU.
#[derive(Debug)]
pub struct UpdateCall<K, P> {
    pub fd: i32,
    pub key: K,
    pub value: P,
    pub flags: u64,
}

/// The call that reads one element. The kernel writes to `value`.
#[derive(Debug)]
pub struct LookupCall<K, P> {
    pub fd: i32,
    pub key: K,
    pub value: P,
}

/// The call that deletes one element.
#[derive(Debug)]
pub struct DeleteCall<K> {
    pub fd: i32,
    pub key: K,
}

/// The call that asks for the key after `prev`, or for the first key where
/// `prev` is `None`. The kernel writes to `key`.
#[derive(Debug)]
pub struct NextKeyCall<K> {
    pub fd: i32,
    pub prev: Option<K>,
    pub key: K,
}

/// The call that writes `count` elements at once. The kernel writes to
/// `count` how many it took.
#[derive(Debug)]
pub struct UpdateBatchCall<K, B> {
    pub fd: i32,
    pub keys: Vec<K>,
    pub values: B,
    pub count: u32,
    pub elem_flags: u64,
}

/// The call that reads up to `count` elements at once, going on from
/// `next_key`, and deletes them where `delete` is set. The kernel writes the
/// elements to `keys` and `values`, their number to `count`, and the key to
/// go on from to `nkey`.
#[derive(Debug)]
pub struct LookupBatchCall<K, B> {
    pub fd: i32,
    pub next_key: Option<u32>,
    pub keys: Vec<K>,
    pub values: B,
    pub count: u32,
    pub nkey: u32,
    pub delete: bool,
}

} // verus!

verus! {

/// A map that has been asked for and is not there yet: the call that makes
/// it, and the handle that stands for it once the call has gone through.
pub struct Creation<M> {
    call: CreateCall,
    map: M,
}

impl<M> Creation<M> {
    /// The call that makes the map.
    pub closed spec fn spec_call(&self) -> CreateCall {
        self.call
    }

    /// The handle for the map, with no descriptor yet.
    pub closed spec fn spec_map(&self) -> M {
        self.map
    }

    pub(crate) fn new(call: CreateCall, map: M) -> (r: Self)
        ensures
            r.spec_call() == call,
            r.spec_map() == map,
    {
        Creation { call, map }
    }

    /// The call that makes the map.
    #[verifier::when_used_as_spec(spec_call)]
    pub fn call(&self) -> (r: CreateCall)
        ensures
            r == self.spec_call(),
    {
        self.call
    }

    pub(crate) fn into_map(self) -> (r: M)
        ensures
            r == self.spec_map(),
    {
        self.map
    }
}

/// The elements of `v`, in a vector of their own.
pub fn copy_vec<T: Copy>(v: &Vec<T>) -> (r: Vec<T>)
    ensures
        r@ == v@,
{
    let mut r: Vec<T> = Vec::new();
    let mut i: usize = 0;
    while i < v.len()
        invariant
            i <= v.len(),
            r@ == v@.take(i as int),
        decreases v.len() - i,
    {
        r.push(v[i]);
        i += 1;
        assert(r@ =~= v@.take(i as int));
    }
    assert(v@.take(v.len() as int) =~= v@);
    r
}

/// The text that says that an update was handed keys and values of
/// different numbers.
pub open spec fn count_mismatch_message(num_keys: nat, num_vals: nat) -> Seq<char> {
    "Num keys must match num values. Got "@ + decimal(num_keys) + " keys, "@ + decimal(num_vals)
        + " values"@
}

/// The error for an update that was handed keys and values of different
/// numbers.
pub fn count_mismatch_error(num_keys: usize, num_vals: usize) -> (e: XDPError)
    ensures
        e.code() == crate::map_batch::EINVAL,
        e.tells(count_mismatch_message(num_keys as nat, num_vals as nat)),
{
    let mut msg = String::from_str("Num keys must match num values. Got ");
    msg.append(decimal_string(num_keys as i128).as_str());
    msg.append(" keys, ");
    msg.append(decimal_string(num_vals as i128).as_str());
    msg.append(" values");
    XDPError::raise(crate::map_batch::EINVAL, msg.as_str())
}

} // verus!

verus! {

/// What a handle knows of its map.
#[derive(Copy, Clone, Debug, PartialEq, Eq, Structural)]
pub struct MapInfo {
    pub map_fd: i32,
    pub map_type: crate::map_types::MapType,
    pub max_entries: u32,
    pub batching_support: bool,
}

impl MapInfo {
    /// The call that deletes `key`; for a kind of a fixed population no
    /// call, but the error "invalid argument".
    pub fn delete<K: Copy>(&self, key: &K) -> (r: XDPResult<DeleteCall<K>>)
        ensures
            self.map_type.spec_is_array() ==> r is Err && r->Err_0.code()
                == crate::map_batch::EINVAL && r->Err_0.tells(
                "Delete not supported on this map type"@,
            ),
            !self.map_type.spec_is_array() ==> r == Ok::<DeleteCall<K>, XDPError>(
                DeleteCall { fd: self.map_fd, key: *key },
            ),
    {
        if self.map_type.is_array() {
            return Err(
                XDPError::raise(crate::map_batch::EINVAL, "Delete not supported on this map type"),
            );
        }
        Ok(DeleteCall { fd: self.map_fd, key: *key })
    }

    /// Nothing if the handle may ask for a batch, and for one that deletes
    /// what it reads where `delete` is set; else the error that says why not:
    /// "operation not supported" without the batch calls, "invalid
    /// argument" for deleting from a kind of a fixed population.
    pub fn may_lookup_batch(&self, delete: bool) -> (r: XDPResult<()>)
        ensures
            !self.batching_support ==> r is Err && r->Err_0.code()
                == crate::map_batch::EOPNOTSUPP && r->Err_0.tells("Batching not supported"@),
            self.batching_support && delete && self.map_type.spec_is_array() ==> r is Err
                && r->Err_0.code() == crate::map_batch::EINVAL && r->Err_0.tells(
                "Delete not supported on this map type"@,
            ),
            self.batching_support && !(delete && self.map_type.spec_is_array()) ==> r is Ok,
    {
        if !self.batching_support {
            return Err(XDPError::raise(crate::map_batch::EOPNOTSUPP, "Batching not supported"));
        }
        if delete && self.map_type.is_array() {
            return Err(
                XDPError::raise(crate::map_batch::EINVAL, "Delete not supported on this map type"),
            );
        }
        Ok(())
    }
}

} // verus!

