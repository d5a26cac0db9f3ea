use vstd::prelude::*;
use vstd::std_specs::convert::FromSpecImpl;

verus! {

/// The kinds of eBPF map, in the order of the kernel's numbering, which
/// starts at 0 with the first variant.
#[allow(non_camel_case_types)]
#[derive(Copy, Clone, Debug, PartialEq, Eq, Structural)]
pub enum MapType {
    Unspec,
    Hash,
    Array,
    ProgArray,
    PerfEventArray,
    PerCPUHash,
    PerCPUArray,
    StackTrace,
    CgroupArray,
    LRUHash,
    LRUPerCPUHash,
    LPMTrie,
    ArrayOfMaps,
    HashOfMaps,
    DevMap,
    SockMap,
    CPUMap,
    XSKMap,
    SockHash,
    CgroupStorage,
    ReusePortSockArray,
    PerCPUCgroupStorage,
    Queue,
    Stack,
    SKStorage,
    DevMapHash,
    StructOpts,
    RingBuffer,
}

/// The kind that the kernel numbers `code`; a number that names no kind is `Unspec`.
pub open spec fn map_type_of(code: u32) -> MapType {
    if code == 1 {
        MapType::Hash
    } else if code == 2 {
        MapType::Array
    } else if code == 3 {
        MapType::ProgArray
    } else if code == 4 {
        MapType::PerfEventArray
    } else if code == 5 {
        MapType::PerCPUHash
    } else if code == 6 {
        MapType::PerCPUArray
    } else if code == 7 {
        MapType::StackTrace
    } else if code == 8 {
        MapType::CgroupArray
    } else if code == 9 {
        MapType::LRUHash
    } else if code == 10 {
        MapType::LRUPerCPUHash
    } else if code == 11 {
        MapType::LPMTrie
    } else if code == 12 {
        MapType::ArrayOfMaps
    } else if code == 13 {
        MapType::HashOfMaps
    } else if code == 14 {
        MapType::DevMap
    } else if code == 15 {
        MapType::SockMap
    } else if code == 16 {
        MapType::CPUMap
    } else if code == 17 {
        MapType::XSKMap
    } else if code == 18 {
        MapType::SockHash
    } else if code == 19 {
        MapType::CgroupStorage
    } else if code == 20 {
        MapType::ReusePortSockArray
    } else if code == 21 {
        MapType::PerCPUCgroupStorage
    } else if code == 22 {
        MapType::Queue
    } else if code == 23 {
        MapType::Stack
    } else if code == 24 {
        MapType::SKStorage
    } else if code == 25 {
        MapType::DevMapHash
    } else if code == 26 {
        MapType::StructOpts
    } else if code == 27 {
        MapType::RingBuffer
    } else {
        MapType::Unspec
    }
}

impl MapType {
    /// The kernel's number for the kind.
    pub open spec fn spec_code(self) -> u32 {
        match self {
            MapType::Unspec => 0,
            MapType::Hash => 1,
            MapType::Array => 2,
            MapType::ProgArray => 3,
            MapType::PerfEventArray => 4,
            MapType::PerCPUHash => 5,
            MapType::PerCPUArray => 6,
            MapType::StackTrace => 7,
            MapType::CgroupArray => 8,
            MapType::LRUHash => 9,
            MapType::LRUPerCPUHash => 10,
            MapType::LPMTrie => 11,
            MapType::ArrayOfMaps => 12,
            MapType::HashOfMaps => 13,
            MapType::DevMap => 14,
            MapType::SockMap => 15,
            MapType::CPUMap => 16,
            MapType::XSKMap => 17,
            MapType::SockHash => 18,
            MapType::CgroupStorage => 19,
            MapType::ReusePortSockArray => 20,
            MapType::PerCPUCgroupStorage => 21,
            MapType::Queue => 22,
            MapType::Stack => 23,
            MapType::SKStorage => 24,
            MapType::DevMapHash => 25,
            MapType::StructOpts => 26,
            MapType::RingBuffer => 27,
        }
    }

    /// Kinds with a fixed population: every key in `0..max_entries` is always
    /// there, and none can be deleted.
    pub open spec fn spec_is_array(self) -> bool {
        self == MapType::Array || self == MapType::PerCPUArray || self == MapType::ArrayOfMaps
            || self == MapType::ProgArray || self == MapType::PerfEventArray
    }

    /// Kinds that keep one value per possible CPU under each key.
    pub open spec fn spec_is_per_cpu(self) -> bool {
        self == MapType::PerCPUHash || self == MapType::PerCPUArray
            || self == MapType::LRUPerCPUHash
    }

    /// Kinds whose entries refer to kernel objects that can go away while the
    /// entry is still listed.
    pub open spec fn spec_holds_references(self) -> bool {
        self == MapType::DevMap
    }

    /// The kernel's number for the kind.
    pub fn code(self) -> (r: u32)
        ensures
            r == self.spec_code(),
            r <= 27,
    {
        match self {
            MapType::Unspec => 0,
            MapType::Hash => 1,
            MapType::Array => 2,
            MapType::ProgArray => 3,
            MapType::PerfEventArray => 4,
            MapType::PerCPUHash => 5,
            MapType::PerCPUArray => 6,
            MapType::StackTrace => 7,
            MapType::CgroupArray => 8,
            MapType::LRUHash => 9,
            MapType::LRUPerCPUHash => 10,
            MapType::LPMTrie => 11,
            MapType::ArrayOfMaps => 12,
            MapType::HashOfMaps => 13,
            MapType::DevMap => 14,
            MapType::SockMap => 15,
            MapType::CPUMap => 16,
            MapType::XSKMap => 17,
            MapType::SockHash => 18,
            MapType::CgroupStorage => 19,
            MapType::ReusePortSockArray => 20,
            MapType::PerCPUCgroupStorage => 21,
            MapType::Queue => 22,
            MapType::Stack => 23,
            MapType::SKStorage => 24,
            MapType::DevMapHash => 25,
            MapType::StructOpts => 26,
            MapType::RingBuffer => 27,
        }
    }

    /// True for the kinds with a fixed population, which refuse deletion.
    pub fn is_array(self) -> (r: bool)
        ensures
            r == self.spec_is_array(),
    {
        match self {
            MapType::Array
            | MapType::PerCPUArray
            | MapType::ArrayOfMaps
            | MapType::ProgArray
            | MapType::PerfEventArray => true,
            _ => false,
        }
    }

    /// True for the kinds that keep one value per possible CPU.
    pub fn is_per_cpu(self) -> (r: bool)
        ensures
            r == self.spec_is_per_cpu(),
    {
        match self {
            MapType::PerCPUHash | MapType::PerCPUArray | MapType::LRUPerCPUHash => true,
            _ => false,
        }
    }

    /// True for the kinds whose entries can vanish under a walk.
    pub fn holds_references(self) -> (r: bool)
        ensures
            r == self.spec_holds_references(),
    {
        match self {
            MapType::DevMap => true,
            _ => false,
        }
    }
}

impl From<u32> for MapType {
    fn from(orig: u32) -> (r: MapType) {
        match orig {
            0 => MapType::Unspec,
            1 => MapType::Hash,
            2 => MapType::Array,
            3 => MapType::ProgArray,
            4 => MapType::PerfEventArray,
            5 => MapType::PerCPUHash,
            6 => MapType::PerCPUArray,
            7 => MapType::StackTrace,
            8 => MapType::CgroupArray,
            9 => MapType::LRUHash,
            10 => MapType::LRUPerCPUHash,
            11 => MapType::LPMTrie,
            12 => MapType::ArrayOfMaps,
            13 => MapType::HashOfMaps,
            14 => MapType::DevMap,
            15 => MapType::SockMap,
            16 => MapType::CPUMap,
            17 => MapType::XSKMap,
            18 => MapType::SockHash,
            19 => MapType::CgroupStorage,
            20 => MapType::ReusePortSockArray,
            21 => MapType::PerCPUCgroupStorage,
            22 => MapType::Queue,
            23 => MapType::Stack,
            24 => MapType::SKStorage,
            25 => MapType::DevMapHash,
            26 => MapType::StructOpts,
            27 => MapType::RingBuffer,
            _ => MapType::Unspec,
        }
    }
}

impl FromSpecImpl<u32> for MapType {
    open spec fn obeys_from_spec() -> bool {
        true
    }

    open spec fn from_spec(v: u32) -> MapType {
        map_type_of(v)
    }
}

/// Every kind comes back from its own number, and every number up to 27 from
/// its kind.
pub proof fn lemma_map_type_code_round_trip(t: MapType, code: u32)
    ensures
        map_type_of(t.spec_code()) == t,
        code <= 27 ==> map_type_of(code).spec_code() == code,
        code > 27 ==> map_type_of(code) == MapType::Unspec,
{
}

} // verus!
