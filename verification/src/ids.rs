//! Identifier types crossing the native boundary by value.

use vstd::prelude::*;

verus! {

/// The unique identifier of an authored object (bank, event, bus or VCA).
#[derive(Clone, Copy, Debug, PartialEq, Eq, Structural)]
pub struct Guid {
    pub data1: u32,
    pub data2: u16,
    pub data3: u16,
    pub data4: u64,
}

impl Guid {
    /// The all-zero identifier, which no authored object uses.
    pub fn zeroed() -> (r: Guid)
        ensures
            r == (Guid { data1: 0, data2: 0, data3: 0, data4: 0 }),
    {
        Guid { data1: 0, data2: 0, data3: 0, data4: 0 }
    }
}

/// The unique identifier of a parameter, local or global.
#[derive(Clone, Copy, Debug, PartialEq, Eq, Structural)]
pub struct ParameterID {
    pub data1: u32,
    pub data2: u32,
}

} // verus!
