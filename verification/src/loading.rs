//! The loading-state machine reported for banks and sample data.
//!
//! Transitions are driven entirely by the engine's own scheduler; the wrapper
//! only polls. When a load has failed, the reported state carries the status
//! code that caused the failure, so callers see the originating error rather
//! than a generic one.

use vstd::prelude::*;

use crate::error::FmodError;
use crate::error::FMOD_ERR_INTERNAL;

verus! {

/// The raw value the native ABI uses for a pending unload.
pub const RAW_STATE_UNLOADING: u32 = 0;

/// The raw value the native ABI uses for "not loaded".
pub const RAW_STATE_UNLOADED: u32 = 1;

/// The raw value the native ABI uses for a load in progress.
pub const RAW_STATE_LOADING: u32 = 2;

/// The raw value the native ABI uses for completed loading.
pub const RAW_STATE_LOADED: u32 = 3;

/// The raw value the native ABI uses for a failed load.
pub const RAW_STATE_ERROR: u32 = 4;

/// The loading state of a bank, or of the sample data inside one.
///
/// A failed load carries the status code that the load reported, so a poll
/// observing the failure learns why the load failed.
#[derive(Clone, Copy, Debug, PartialEq, Eq, Structural)]
pub enum LoadingState {
    /// An unload was requested and has not completed yet.
    Unloading,
    /// Nothing is loaded.
    Unloaded,
    /// A load was requested and has not completed yet.
    Loading,
    /// Loading has completed.
    Loaded,
    /// Loading failed with the carried status code.
    Error(FmodError),
}

impl LoadingState {
    /// The raw value the native ABI would report for this state.
    pub open spec fn spec_to_raw(self) -> u32 {
        match self {
            LoadingState::Unloading => RAW_STATE_UNLOADING,
            LoadingState::Unloaded => RAW_STATE_UNLOADED,
            LoadingState::Loading => RAW_STATE_LOADING,
            LoadingState::Loaded => RAW_STATE_LOADED,
            LoadingState::Error(_) => RAW_STATE_ERROR,
        }
    }

    /// Converts this state to its raw ABI value.
    pub fn to_raw(&self) -> (r: u32)
        ensures
            r == self.spec_to_raw(),
    {
        match self {
            LoadingState::Unloading => RAW_STATE_UNLOADING,
            LoadingState::Unloaded => RAW_STATE_UNLOADED,
            LoadingState::Loading => RAW_STATE_LOADING,
            LoadingState::Loaded => RAW_STATE_LOADED,
            LoadingState::Error(_) => RAW_STATE_ERROR,
        }
    }

    /// Rebuilds a state from the raw value and the status code of the polling
    /// call, as the two arrive together from the native side.
    ///
    /// A failing poll that did not observe the error state is a true failure
    /// and is returned as the error. A poll observing the error state reports
    /// the state, carrying the code the call returned; the engine reports the
    /// load's own failure code as the poll's status in that case.
    pub fn try_from_ffi(raw: u32, error: Option<FmodError>) -> (r: Result<LoadingState, FmodError>)
        requires
            raw <= RAW_STATE_ERROR,
        ensures
            raw == RAW_STATE_ERROR && error is Some ==> r == Ok::<LoadingState, FmodError>(
                LoadingState::Error(error->0),
            ),
            raw == RAW_STATE_ERROR && error is None ==> r == Ok::<LoadingState, FmodError>(
                LoadingState::Error(FmodError { code: FMOD_ERR_INTERNAL }),
            ),
            raw != RAW_STATE_ERROR && error is Some ==> r == Err::<LoadingState, FmodError>(
                error->0,
            ),
            raw != RAW_STATE_ERROR && error is None ==> r is Ok && r->Ok_0.spec_to_raw() == raw
                && !(r->Ok_0 is Error),
    {
        if raw == RAW_STATE_ERROR {
            match error {
                Some(e) => Ok(LoadingState::Error(e)),
                None => Ok(LoadingState::Error(FmodError { code: FMOD_ERR_INTERNAL })),
            }
        } else {
            match error {
                Some(e) => Err(e),
                None => {
                    if raw == RAW_STATE_UNLOADING {
                        Ok(LoadingState::Unloading)
                    } else if raw == RAW_STATE_UNLOADED {
                        Ok(LoadingState::Unloaded)
                    } else if raw == RAW_STATE_LOADING {
                        Ok(LoadingState::Loading)
                    } else {
                        Ok(LoadingState::Loaded)
                    }
                },
            }
        }
    }
}

/// Converting a state to its raw value and back with a clean poll returns the
/// same state, for every state except a failed one, which the raw value alone
/// cannot carry.
pub proof fn lemma_raw_round_trip(state: LoadingState)
    requires
        !(state is Error),
    ensures
        state.spec_to_raw() <= RAW_STATE_ERROR,
        forall|s2: LoadingState|
            !(s2 is Error) && s2.spec_to_raw() == state.spec_to_raw() ==> s2 == state,
{
}

} // verus!
