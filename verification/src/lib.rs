//! Typed access to kernel eBPF maps, with the kernel kept at arm's length.
//!
//! A handle ([`XDPMap`] for maps whose values all CPUs share, [`PerCpuMap`]
//! for maps with one value per possible CPU) settles which kernel call an
//! operation takes and what the kernel's answer means. It packs what the
//! kernel is to read and unpacks what it wrote, but it makes no call: every
//! operation hands the call to its caller as a plain value, and reads the
//! answer when the caller brings it back. Operations that take many calls
//! ([`XDPMap::items`], [`XDPMap::update_batch`], the
//! [`CapabilityProbe`]) are small state machines that say what they need next.
//!
//! What is proved of the handles holds whatever the kernel answers. What is proved
//! of a whole walk, of a chain of batch lookups or of an update of many
//! elements is stated for a kernel that answers as a map does, in
//! `items_laws`, `batch_chain` and `update_plan`.

pub mod batch_chain;
pub mod byte_aligned;
pub mod capability;
pub mod error;
pub mod items;
pub mod items_laws;
pub mod map;
pub mod map_batch;
pub mod map_common;
pub mod map_flags;
pub mod map_like;
pub mod map_types;
pub mod object;
pub mod percpu_map;
pub mod perf_map;
pub mod result;
pub mod update_plan;
pub mod utils;

pub use byte_aligned::ByteAligned;
pub use capability::{is_batching_supported, CapabilityProbe, ProbeStep};
pub use error::XDPError;
pub use items::{ItemsWalk, WalkEvent, WalkStep};
pub use map::XDPMap;
pub use map_batch::BatchResult;
pub use map_common::{KeyValue, MapDescriptor, MapValue, Outcome};
pub use map_flags::MapFlags;
pub use map_like::MapLike;
pub use map_types::MapType;
pub use percpu_map::PerCpuMap;
pub use perf_map::{EventType, PerfEvent, PerfMap};
pub use result::XDPResult;
pub use update_plan::{UpdateEvent, UpdatePlan, UpdateStep};
pub use utils::num_cpus;
