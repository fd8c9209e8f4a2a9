//! Thin opaque handles with no state of their own.
//!
//! Each wraps the address-sized value the native ABI uses for the object;
//! possession does not imply validity, which only the engine can answer.

use vstd::prelude::*;

verus! {

/// A handle to a bus in the global mixer.
#[derive(Clone, Copy, Debug, PartialEq, Eq, Structural)]
pub struct Bus {
    pub raw: usize,
}

impl Bus {
    /// Wraps a raw handle value as received from the ABI.
    pub fn from_ffi(value: usize) -> (r: Bus)
        ensures
            r.raw == value,
    {
        Bus { raw: value }
    }

    /// The raw handle value, for handing back across the ABI.
    pub fn into_ffi(self) -> (r: usize)
        ensures
            r == self.raw,
    {
        self.raw
    }
}

/// A handle to a VCA in the global mixer.
#[derive(Clone, Copy, Debug, PartialEq, Eq, Structural)]
pub struct Vca {
    pub raw: usize,
}

impl Vca {
    /// Wraps a raw handle value as received from the ABI.
    pub fn from_ffi(value: usize) -> (r: Vca)
        ensures
            r.raw == value,
    {
        Vca { raw: value }
    }

    /// The raw handle value, for handing back across the ABI.
    pub fn into_ffi(self) -> (r: usize)
        ensures
            r == self.raw,
    {
        self.raw
    }
}

/// A handle to a playable instance of an event.
#[derive(Clone, Copy, Debug, PartialEq, Eq, Structural)]
pub struct EventInstance {
    pub raw: usize,
}

impl EventInstance {
    /// Wraps a raw handle value as received from the ABI.
    pub fn from_ffi(value: usize) -> (r: EventInstance)
        ensures
            r.raw == value,
    {
        EventInstance { raw: value }
    }

    /// The raw handle value, for handing back across the ABI.
    pub fn into_ffi(self) -> (r: usize)
        ensures
            r == self.raw,
    {
        self.raw
    }
}

/// A handle to the core mixer system that a studio system wraps.
#[derive(Clone, Copy, Debug, PartialEq, Eq, Structural)]
pub struct CoreSystem {
    pub raw: usize,
}

impl CoreSystem {
    /// Wraps a raw handle value as received from the ABI.
    pub fn from_ffi(value: usize) -> (r: CoreSystem)
        ensures
            r.raw == value,
    {
        CoreSystem { raw: value }
    }

    /// The raw handle value, for handing back across the ABI.
    pub fn into_ffi(self) -> (r: usize)
        ensures
            r == self.raw,
    {
        self.raw
    }
}

/// A handle to a loaded command replay.
#[derive(Clone, Copy, Debug, PartialEq, Eq, Structural)]
pub struct CommandReplay {
    pub raw: usize,
}

impl CommandReplay {
    /// Wraps a raw handle value as received from the ABI.
    pub fn from_ffi(value: usize) -> (r: CommandReplay)
        ensures
            r.raw == value,
    {
        CommandReplay { raw: value }
    }

    /// The raw handle value, for handing back across the ABI.
    pub fn into_ffi(self) -> (r: usize)
        ensures
            r == self.raw,
    {
        self.raw
    }
}

} // verus!
