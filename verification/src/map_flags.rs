use vstd::prelude::*;

verus! {

/// Flags that control map `update` behaviour.
#[derive(Copy, Clone, Debug, PartialEq, Eq, Structural)]
pub enum MapFlags {
    /// Create a new element or update an existing element.
    BpfAny,
    /// Create a new element only if it did not exist.
    BpfNoExist,
    /// Update an existing element.
    BpfExist,
}

impl MapFlags {
    /// The number the kernel knows the flag by.
    pub open spec fn spec_bits(self) -> u64 {
        match self {
            MapFlags::BpfAny => 0,
            MapFlags::BpfNoExist => 1,
            MapFlags::BpfExist => 2,
        }
    }

    /// The number the kernel knows the flag by; it is handed to the kernel as it is.
    pub fn bits(self) -> (r: u64)
        ensures
            r == self.spec_bits(),
    {
        match self {
            MapFlags::BpfAny => 0,
            MapFlags::BpfNoExist => 1,
            MapFlags::BpfExist => 2,
        }
    }
}

} // verus!
