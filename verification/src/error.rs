//! Status codes of the native engine and their mapping to typed results.
//!
//! The native ABI reports every outcome as a signed integer: zero is success,
//! every other value names a specific failure. One non-success value, the
//! truncation signal, is expected during the first phase of a size-discovery
//! query and must be distinguishable from a true error.

use vstd::prelude::*;

verus! {

/// The success code of the native ABI.
pub const FMOD_OK: i32 = 0;

/// A DSP unit could not be released because it is still attached to its graph.
pub const FMOD_ERR_DSP_INUSE: i32 = 8;

/// The supplied bank image or file was malformed.
pub const FMOD_ERR_FILE_BAD: i32 = 13;

/// The named file could not be found.
pub const FMOD_ERR_FILE_NOTFOUND: i32 = 18;

/// An internal inconsistency was detected inside the engine.
pub const FMOD_ERR_INTERNAL: i32 = 28;

/// A handle referred to an object that no longer exists.
pub const FMOD_ERR_INVALID_HANDLE: i32 = 30;

/// An argument was outside the range the operation accepts.
pub const FMOD_ERR_INVALID_PARAM: i32 = 31;

/// The engine could not allocate a resource.
pub const FMOD_ERR_MEMORY: i32 = 38;

/// The object is not yet in a state where the operation can proceed.
pub const FMOD_ERR_NOTREADY: i32 = 46;

/// The operation needs a feature the system was not initialized with.
pub const FMOD_ERR_UNSUPPORTED: i32 = 68;

/// The supplied buffer was too small and the output was truncated.
///
/// This is the expected signal of the first phase of a two-phase query.
pub const FMOD_ERR_TRUNCATED: i32 = 65;

/// The content is already loaded and is not loaded twice.
pub const FMOD_ERR_EVENT_ALREADY_LOADED: i32 = 70;

/// A path or identifier lookup found nothing.
pub const FMOD_ERR_EVENT_NOTFOUND: i32 = 74;

/// The bank holding the requested data is not loaded.
pub const FMOD_ERR_STUDIO_NOT_LOADED: i32 = 76;

/// A string argument was not representable at the boundary.
pub const FMOD_ERR_INVALID_STRING: i32 = 77;

/// A failure reported by the native engine, carrying its status code verbatim.
#[derive(Clone, Copy, Debug, PartialEq, Eq, Structural)]
pub struct FmodError {
    pub code: i32,
}

impl FmodError {
    /// The raw status code carried by this error.
    pub fn code(&self) -> (r: i32)
        ensures
            r == self.code,
    {
        self.code
    }

    /// True when this error is the truncation signal of a discovery call.
    pub fn is_truncated(&self) -> (r: bool)
        ensures
            r == (self.code == FMOD_ERR_TRUNCATED),
    {
        self.code == FMOD_ERR_TRUNCATED
    }

    /// A short stable name for the codes the wrapper distinguishes.
    pub fn describe(&self) -> (r: &'static str)
    {
        if self.code == FMOD_ERR_DSP_INUSE {
            "dsp still in use"
        } else if self.code == FMOD_ERR_FILE_BAD {
            "bad file or image"
        } else if self.code == FMOD_ERR_INVALID_HANDLE {
            "invalid handle"
        } else if self.code == FMOD_ERR_INVALID_PARAM {
            "invalid parameter"
        } else if self.code == FMOD_ERR_MEMORY {
            "out of memory"
        } else if self.code == FMOD_ERR_NOTREADY {
            "not ready"
        } else if self.code == FMOD_ERR_TRUNCATED {
            "truncated"
        } else if self.code == FMOD_ERR_EVENT_NOTFOUND {
            "not found"
        } else if self.code == FMOD_ERR_STUDIO_NOT_LOADED {
            "bank not loaded"
        } else if self.code == FMOD_ERR_INVALID_STRING {
            "invalid string"
        } else {
            "native error"
        }
    }
}

/// Classifies a native status code as success or a typed failure.
///
/// Succeeds exactly on the success code; any other code is returned verbatim
/// as a typed error.
pub fn to_result(code: i32) -> (r: Result<(), FmodError>)
    ensures
        r is Ok <==> code == FMOD_OK,
        r is Err ==> r->Err_0.code == code,
{
    if code == FMOD_OK {
        Ok(())
    } else {
        Err(FmodError { code })
    }
}

/// Classifies a native status code, keeping a failure as an optional error.
///
/// Mirrors the shape used by call sites that must inspect the failure before
/// deciding whether it is expected.
pub fn to_error(code: i32) -> (r: Option<FmodError>)
    ensures
        r is None <==> code == FMOD_OK,
        r is Some ==> r->0.code == code,
{
    if code == FMOD_OK {
        None
    } else {
        Some(FmodError { code })
    }
}

} // verus!
