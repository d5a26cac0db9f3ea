use vstd::prelude::*;
use vstd::string::*;
use crate::map::XDPMap;
use crate::map_common::{Creation, LookupBatchCall, MapInfo, UpdateCall};
use crate::map_flags::MapFlags;
use crate::map_types::MapType;
use crate::result::XDPResult;

verus! {

/// The environment variable that keeps the answer for the processes that
/// come after: the value "0" says that the kernel has no batch calls.
pub const RXDP_BATCH_ENV: &'static str = "rxdp_batching_supported";

/// What the probe needs next from its caller.
#[derive(Copy, Clone, Debug, PartialEq, Eq, Structural)]
pub enum ProbeStep {
    /// A small hash map of its own: the call of `probe_create`.
    Create,
    /// One element written to that map the plain way: the call of
    /// `probe_update`.
    Update,
    /// One batch looked up from that map: the call of `probe_lookup_batch`.
    LookupBatch,
    /// Nothing: the answer is known.
    Done(bool),
}

/// Finds out, once, whether the kernel has the batch calls. The probe
/// needs no map but its own: it has a small hash map made, one element
/// written to it, and one batch looked up. If all three go through, the
/// kernel has the batch calls; the first that fails says that it has not.
/// Once the answer is known it does not change.
pub struct CapabilityProbe {
    step: ProbeStep,
}

/// The step after `step`, when what it asked for went through (`ok`) or
/// failed.
pub open spec fn probe_advanced(step: ProbeStep, ok: bool) -> ProbeStep {
    match step {
        ProbeStep::Create => if ok {
            ProbeStep::Update
        } else {
            ProbeStep::Done(false)
        },
        ProbeStep::Update => if ok {
            ProbeStep::LookupBatch
        } else {
            ProbeStep::Done(false)
        },
        ProbeStep::LookupBatch => ProbeStep::Done(ok),
        ProbeStep::Done(known) => ProbeStep::Done(known),
    }
}

/// Where a probe starts that finds `cached` in the environment: the value
/// "0" settles that there are no batch calls; any other value, and none,
/// leaves it to the kernel.
pub open spec fn probe_start(cached: Option<Seq<char>>) -> ProbeStep {
    if cached == Some(seq!['0']) {
        ProbeStep::Done(false)
    } else {
        ProbeStep::Create
    }
}

impl View for CapabilityProbe {
    type V = ProbeStep;

    closed spec fn view(&self) -> ProbeStep {
        self.step
    }
}

impl CapabilityProbe {
    /// A probe that has yet to ask the kernel.
    pub fn new() -> (probe: Self)
        ensures
            probe@ == ProbeStep::Create,
    {
        CapabilityProbe { step: ProbeStep::Create }
    }

    /// A probe whose answer is `supported`, with nothing asked.
    pub fn forced(supported: bool) -> (probe: Self)
        ensures
            probe@ == ProbeStep::Done(supported),
    {
        CapabilityProbe { step: ProbeStep::Done(supported) }
    }

    /// What the probe needs next.
    pub fn step(&self) -> (step: ProbeStep)
        ensures
            step == self@,
    {
        self.step
    }

    /// Takes the answer to what the probe asked for: `ok` if the call went
    /// through.
    pub fn advance(&mut self, ok: bool)
        ensures
            final(self)@ == probe_advanced(old(self)@, ok),
    {
        self.step = match self.step {
            ProbeStep::Create => if ok {
                ProbeStep::Update
            } else {
                ProbeStep::Done(false)
            },
            ProbeStep::Update => if ok {
                ProbeStep::LookupBatch
            } else {
                ProbeStep::Done(false)
            },
            ProbeStep::LookupBatch => ProbeStep::Done(ok),
            ProbeStep::Done(known) => ProbeStep::Done(known),
        };
    }

    /// The answer, once it is known.
    pub fn supported(&self) -> (r: Option<bool>)
        ensures
            r == match self@ {
                ProbeStep::Done(known) => Some(known),
                _ => None,
            },
    {
        match self.step {
            ProbeStep::Done(known) => Some(known),
            _ => None,
        }
    }
}

/// The probe for a process that finds `cached` in the environment variable
/// `RXDP_BATCH_ENV`: the value "0" settles that there are no batch calls;
/// with any other value, and with none, the kernel is asked.
pub fn check_batching_supported(cached: Option<&str>) -> (probe: CapabilityProbe)
    ensures
        probe@ == probe_start(
            match cached {
                Some(v) => Some(v@),
                None => None,
            },
        ),
{
    match cached {
        Some(v) => {
            if v.unicode_len() == 1 && v.get_char(0) == '0' {
                assert(v@ =~= seq!['0']);
                CapabilityProbe::forced(false)
            } else {
                CapabilityProbe::new()
            }
        },
        None => CapabilityProbe::new(),
    }
}

/// True if kernel supports eBPF batch syscalls: the answer of a probe that
/// has found it out. A probe that is still asking has no answer to give, so
/// that an answer, once given, is the answer for good: whatever the probe is
/// handed afterwards, it stays as it is.
pub fn is_batching_supported(probe: &CapabilityProbe) -> (r: bool)
    requires
        probe@ is Done,
    ensures
        probe@ == ProbeStep::Done(r),
        forall|ok: bool| probe_advanced(probe@, ok) == ProbeStep::Done(r),
{
    match probe.step {
        ProbeStep::Done(known) => known,
        _ => false,
    }
}

/// What to leave in the environment variable `RXDP_BATCH_ENV` for the
/// processes that come after.
pub fn cache_value(supported: bool) -> (r: &'static str)
    ensures
        r@ == if supported {
            "1"@
        } else {
            "0"@
        },
{
    if supported {
        "1"
    } else {
        "0"
    }
}

/// The probe's own map: a hash map for ten elements with keys and values of
/// four bytes and no flags, whose handle does not use the batch calls.
pub fn probe_create() -> (r: XDPResult<Creation<XDPMap<u32, u32>>>)
    ensures
        r is Ok,
        r->Ok_0.spec_call() == (crate::map_common::CreateCall {
            map_type: MapType::Hash,
            key_size: 4,
            value_size: 4,
            max_entries: 10,
            map_flags: 0,
        }),
        r->Ok_0.spec_map()@ == (MapInfo {
            map_fd: -1i32,
            map_type: MapType::Hash,
            max_entries: 10,
            batching_support: false,
        }),
{
    broadcast use vstd::layout::layout_of_primitives;

    XDPMap::<u32, u32>::create(MapType::Hash, 4, 4, 10, 0, false)
}

/// The probe's update: the value 0 under the key 0, created or updated.
pub fn probe_update(map: &XDPMap<u32, u32>) -> (call: UpdateCall<u32, u32>)
    ensures
        call == (UpdateCall { fd: map@.map_fd, key: 0u32, value: 0u32, flags: 0u64 }),
{
    map.update(&0u32, &0u32, MapFlags::BpfAny)
}

/// The probe's batch lookup: up to ten elements from the start, none
/// deleted.
pub fn probe_lookup_batch(map: &XDPMap<u32, u32>) -> (call: LookupBatchCall<u32, Vec<u32>>)
    ensures
        map.asks_for_batch(call, 10, None, false),
{
    map.lookup_batch_impl(10, None, false)
}

/// The answer is written once: a probe that knows it keeps it, whatever
/// comes after; and a probe comes to know that the kernel has the batch
/// calls in one way only, by seeing all three of its calls go through.
pub proof fn lemma_probe_answer_is_final(known: bool, ok: bool, first: bool, second: bool, third: bool)
    ensures
        probe_advanced(ProbeStep::Done(known), ok) == ProbeStep::Done(known),
        probe_advanced(
            probe_advanced(probe_advanced(ProbeStep::Create, first), second),
            third,
        ) == ProbeStep::Done(first && second && third),
{
}

} // verus!
