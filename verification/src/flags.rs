//! Flag words and pre-initialization settings passed across the boundary.

use vstd::prelude::*;

verus! {

/// Bit set in a bank-load flag word to request a non-blocking load.
pub const LOAD_BANK_NONBLOCKING_BIT: u32 = 1;

/// Flags controlling how a bank is loaded.
#[derive(Clone, Copy, Debug, PartialEq, Eq, Structural)]
pub struct LoadBankFlags {
    pub bits: u32,
}

impl LoadBankFlags {
    /// The default flag word: a blocking load.
    pub fn normal() -> (r: LoadBankFlags)
        ensures
            r.bits == 0,
            !r.spec_nonblocking(),
    {
        proof {
            assert(0u32 & 1u32 == 0u32) by (bit_vector);
        }
        LoadBankFlags { bits: 0 }
    }

    /// The flag word requesting an asynchronous load.
    pub fn nonblocking() -> (r: LoadBankFlags)
        ensures
            r.bits == LOAD_BANK_NONBLOCKING_BIT,
            r.spec_nonblocking(),
    {
        proof {
            assert(1u32 & 1u32 == 1u32) by (bit_vector);
        }
        LoadBankFlags { bits: LOAD_BANK_NONBLOCKING_BIT }
    }

    /// Whether the flag word requests an asynchronous load.
    pub open spec fn spec_nonblocking(self) -> bool {
        self.bits & LOAD_BANK_NONBLOCKING_BIT == LOAD_BANK_NONBLOCKING_BIT
    }

    /// Whether the flag word requests an asynchronous load.
    pub fn is_nonblocking(&self) -> (r: bool)
        ensures
            r == self.spec_nonblocking(),
    {
        self.bits & LOAD_BANK_NONBLOCKING_BIT == LOAD_BANK_NONBLOCKING_BIT
    }
}

/// Flags for initializing the studio layer.
#[derive(Clone, Copy, Debug, PartialEq, Eq, Structural)]
pub struct InitFlags {
    pub bits: u32,
}

impl InitFlags {
    /// The default initialization flags.
    pub fn normal() -> (r: InitFlags)
        ensures
            r.bits == 0,
    {
        InitFlags { bits: 0 }
    }
}

/// Bit set in a core init flag word to enable mixer-thread profiling.
pub const CORE_INIT_PROFILE_BIT: u32 = 0x00010000;

/// Flags for initializing the core mixer layer.
#[derive(Clone, Copy, Debug, PartialEq, Eq, Structural)]
pub struct CoreInitFlags {
    pub bits: u32,
}

impl CoreInitFlags {
    /// The default initialization flags.
    pub fn normal() -> (r: CoreInitFlags)
        ensures
            r.bits == 0,
            !r.spec_profiling(),
    {
        proof {
            assert(0u32 & 0x00010000u32 == 0u32) by (bit_vector);
        }
        CoreInitFlags { bits: 0 }
    }

    /// The flag word enabling mixer-thread profiling.
    pub fn profiling() -> (r: CoreInitFlags)
        ensures
            r.bits == CORE_INIT_PROFILE_BIT,
            r.spec_profiling(),
    {
        proof {
            assert(0x00010000u32 & 0x00010000u32 == 0x00010000u32) by (bit_vector);
        }
        CoreInitFlags { bits: CORE_INIT_PROFILE_BIT }
    }

    /// Whether the flag word enables mixer-thread profiling.
    pub open spec fn spec_profiling(self) -> bool {
        self.bits & CORE_INIT_PROFILE_BIT == CORE_INIT_PROFILE_BIT
    }

    /// Whether the flag word enables mixer-thread profiling.
    pub fn is_profiling(&self) -> (r: bool)
        ensures
            r == self.spec_profiling(),
    {
        self.bits & CORE_INIT_PROFILE_BIT == CORE_INIT_PROFILE_BIT
    }
}

/// Flags controlling command capture.
#[derive(Clone, Copy, Debug, PartialEq, Eq, Structural)]
pub struct CommandCaptureFlags {
    pub bits: u32,
}

impl CommandCaptureFlags {
    /// The default capture flags.
    pub fn normal() -> (r: CommandCaptureFlags)
        ensures
            r.bits == 0,
    {
        CommandCaptureFlags { bits: 0 }
    }
}

/// Flags controlling command replay.
#[derive(Clone, Copy, Debug, PartialEq, Eq, Structural)]
pub struct CommandReplayFlags {
    pub bits: u32,
}

impl CommandReplayFlags {
    /// The default replay flags.
    pub fn normal() -> (r: CommandReplayFlags)
        ensures
            r.bits == 0,
    {
        CommandReplayFlags { bits: 0 }
    }
}

/// Settings that can only be chosen before the system is built.
///
/// An encryption key, when set, is incompatible with loading a bank from a
/// caller-supplied memory buffer.
#[derive(Clone, Debug, PartialEq, Eq)]
pub struct AdvancedSettings {
    pub command_queue_size: u32,
    pub handle_initial_size: u32,
    pub studio_update_period: i32,
    pub idle_sample_data_pool_size: i32,
    pub streaming_schedule_delay: u32,
    pub encryption_key: Option<String>,
}

impl AdvancedSettings {
    /// The engine's default settings: no encryption key.
    pub fn defaults() -> (r: AdvancedSettings)
        ensures
            r.encryption_key is None,
    {
        AdvancedSettings {
            command_queue_size: 32768,
            handle_initial_size: 8192,
            studio_update_period: 20,
            idle_sample_data_pool_size: 262144,
            streaming_schedule_delay: 8192,
            encryption_key: None,
        }
    }
}

} // verus!
