use std::marker::PhantomData;
use vstd::prelude::*;
use crate::error::XDPError;
use crate::map_batch::EINVAL;
use crate::map_common::{key_size_message, no_such_map_message, validate_map, MapDescriptor};
use crate::map_types::{map_type_of, MapType};
use crate::result::XDPResult;

verus! {

/// Used for working with a perf eBPF map.
pub struct PerfMap<T> {
    map_fd: i32,
    _t: PhantomData<T>,
}

/// The event sent from eBPF.
#[derive(Debug)]
pub struct PerfEvent<T> {
    /// The cpu that generated this event.
    pub cpu: i32,
    /// The event type.
    pub event: EventType<T>,
}

/// Event type from eBPF perf event map.
#[derive(Debug)]
pub enum EventType<T> {
    /// The data as generated by the eBPF code.
    Sample(T),
    /// How many events were lost because they weren't read by user-space fast enough.
    Lost(u64),
}

impl<T> PerfEvent<T> {
    /// The event for data that the eBPF code sent from `cpu`.
    pub fn sample(cpu: i32, data: T) -> (r: Self)
        ensures
            r == (PerfEvent { cpu, event: EventType::Sample(data) }),
    {
        PerfEvent { cpu, event: EventType::Sample(data) }
    }

    /// The event for `cnt` events of `cpu` that were lost.
    pub fn lost(cpu: i32, cnt: u64) -> (r: Self)
        ensures
            r == (PerfEvent::<T> { cpu, event: EventType::Lost(cnt) }),
    {
        PerfEvent { cpu, event: EventType::Lost(cnt) }
    }
}

impl<T> PerfMap<T> {
    /// The descriptor of the map.
    pub closed spec fn spec_map_fd(&self) -> i32 {
        self.map_fd
    }

    /// Get access to the eBPF map `map_name`, of which the loader found
    /// `found`. This will fail if the map is not there, if its keys are not
    /// of four bytes, or if its kind is not `MapType::PerfEventArray`; the
    /// last with "invalid argument".
    pub fn new(found: Option<MapDescriptor>, map_name: &str) -> (r: XDPResult<PerfMap<T>>)
        ensures
            match found {
                Some(d) if d.map_fd >= 0 => if d.key_size != 4 {
                    r is Err && r->Err_0.tells(key_size_message(d.key_size, 4))
                } else if map_type_of(d.map_type) != MapType::PerfEventArray {
                    r is Err && r->Err_0.code() == EINVAL && r->Err_0.tells(
                        "Improper map type, must be MapType::PerfEventArray"@,
                    )
                } else {
                    r is Ok && r->Ok_0.spec_map_fd() == d.map_fd
                },
                _ => r is Err && r->Err_0.tells(no_such_map_message(map_name@)),
            },
    {
        broadcast use vstd::layout::layout_of_primitives;

        let (map_fd, _vsize, mtype, _max_entries) = match validate_map::<i32>(found, map_name) {
            Ok(t) => t,
            Err(e) => {
                return Err(e);
            },
        };
        let map_type = MapType::from(mtype);
        if map_type != MapType::PerfEventArray {
            return Err(
                XDPError::raise(EINVAL, "Improper map type, must be MapType::PerfEventArray"),
            );
        }
        Ok(PerfMap { map_fd, _t: PhantomData })
    }

    /// File descriptor for this map.
    #[verifier::when_used_as_spec(spec_map_fd)]
    pub fn map_fd(&self) -> (r: i32)
        ensures
            r == self.spec_map_fd(),
    {
        self.map_fd
    }
}

} // verus!
