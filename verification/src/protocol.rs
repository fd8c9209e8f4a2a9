//! The two-phase size-discovery protocol.
//!
//! Variable-length text and lists are retrieved from the engine in two calls:
//! a discovery call with no buffer that reports the required size, then a
//! fill call with a buffer of exactly that size. The truncation signal of the
//! discovery call is expected and consumed here; any other failure aborts
//! before the fill call. A fill call that disagrees with the discovery call
//! is an internal-consistency fault and is rejected rather than returned as
//! truncated or garbled data.

use vstd::prelude::*;

use crate::error::FmodError;
use crate::error::FMOD_ERR_MEMORY;
use crate::error::FMOD_ERR_TRUNCATED;
use crate::error::FMOD_OK;
use crate::text::payload_len;
use crate::text::terminate;
use crate::text::terminated_bytes;
use crate::text::unmarshal_in;

verus! {

/// Why a two-phase query failed.
#[derive(Clone, Copy, Debug, PartialEq, Eq, Structural)]
pub enum QueryError {
    /// The engine reported a failure code.
    Native(FmodError),
    /// The fill call disagreed with the discovery call: a broken invariant,
    /// not a recoverable outcome.
    Mismatch { expected: usize, found: usize },
}

impl QueryError {
    /// True when this failure is an internal-consistency fault.
    pub fn is_mismatch(&self) -> (r: bool)
        ensures
            r == (self is Mismatch),
    {
        match self {
            QueryError::Mismatch { .. } => true,
            QueryError::Native(_) => false,
        }
    }
}

/// What to do after the discovery call.
#[derive(Clone, Copy, Debug, PartialEq, Eq, Structural)]
pub enum Discovery {
    /// The discovery call reported the required size; allocate and fill.
    Proceed(usize),
    /// The discovery call failed for real; surface the failure unchanged.
    Abort(FmodError),
}

/// Inspects the outcome of a discovery call.
///
/// The success code and the truncation signal both mean the reported size is
/// usable; the truncation signal is consumed here and never surfaces to the
/// caller. Every other code aborts the query at once, so the fill call is
/// never attempted after a true failure.
pub fn discovery_step(code: i32, reported: usize) -> (r: Discovery)
    ensures
        code == FMOD_OK || code == FMOD_ERR_TRUNCATED ==> r == Discovery::Proceed(reported),
        code != FMOD_OK && code != FMOD_ERR_TRUNCATED ==> r == Discovery::Abort(
            FmodError { code },
        ),
{
    if code == FMOD_OK || code == FMOD_ERR_TRUNCATED {
        Discovery::Proceed(reported)
    } else {
        Discovery::Abort(FmodError { code })
    }
}

/// Checks the outcome of a fill call against the size the discovery call
/// reported.
///
/// Accepts exactly a successful fill whose echoed size and produced length
/// both equal the expected size; a failure code is surfaced unchanged, and a
/// size disagreement is rejected as a consistency fault.
pub fn fill_step(expected: usize, code: i32, echoed: usize, produced: usize) -> (r: Result<
    (),
    QueryError,
>)
    ensures
        r is Ok <==> code == FMOD_OK && echoed == expected && produced == expected,
        code != FMOD_OK ==> r == Err::<(), QueryError>(
            QueryError::Native(FmodError { code }),
        ),
        code == FMOD_OK && echoed != expected ==> r == Err::<(), QueryError>(
            QueryError::Mismatch { expected, found: echoed },
        ),
        code == FMOD_OK && echoed == expected && produced != expected ==> r == Err::<
            (),
            QueryError,
        >(QueryError::Mismatch { expected, found: produced }),
{
    if code != FMOD_OK {
        Err(QueryError::Native(FmodError { code }))
    } else if echoed != expected {
        Err(QueryError::Mismatch { expected, found: echoed })
    } else if produced != expected {
        Err(QueryError::Mismatch { expected, found: produced })
    } else {
        Ok(())
    }
}

/// One native string query, as the ABI shapes it: given a buffer capacity,
/// the engine answers with a status code, the required size including the
/// terminator, and the bytes it wrote.
///
/// With too small a capacity the engine reports the truncation signal and
/// the required size; with enough capacity it writes the terminated bytes
/// and echoes the required size.
pub fn string_out(s: &String, capacity: usize) -> (r: (i32, usize, Vec<u8>))
    ensures
        vstd::utf8::encode_utf8(s@).len() < usize::MAX ==> {
            let needed = vstd::utf8::encode_utf8(s@).len() + 1;
            &&& capacity < needed ==> r.0 == FMOD_ERR_TRUNCATED && r.1 == needed && r.2@.len()
                == 0
            &&& capacity >= needed ==> r.0 == FMOD_OK && r.1 == needed && r.2@
                == terminated_bytes(s@)
        },
        vstd::utf8::encode_utf8(s@).len() >= usize::MAX ==> r.0 == FMOD_ERR_MEMORY,
{
    let n = payload_len(s);
    if n == usize::MAX {
        return (FMOD_ERR_MEMORY, 0, Vec::new());
    }
    let needed = n + 1;
    if capacity < needed {
        (FMOD_ERR_TRUNCATED, needed, Vec::new())
    } else {
        (FMOD_OK, needed, terminate(s))
    }
}

/// Retrieves a string from the engine with the full two-phase dance: discover
/// the size with an empty buffer, consume the truncation signal, fill with a
/// buffer of exactly the reported size, check the echoed size, and decode.
///
/// For every string the engine can hold, the retrieved text equals the text
/// the engine holds: the discovery size and the fill size agree and the bytes
/// decode losslessly.
pub fn fetch_string(s: &String) -> (r: Result<String, QueryError>)
    ensures
        vstd::utf8::encode_utf8(s@).len() < usize::MAX ==> r is Ok && r->Ok_0@ == s@,
        vstd::utf8::encode_utf8(s@).len() >= usize::MAX ==> r == Err::<String, QueryError>(
            QueryError::Native(FmodError { code: FMOD_ERR_MEMORY }),
        ),
{
    let (code0, needed, _ignored) = string_out(s, 0);
    let expected = match discovery_step(code0, needed) {
        Discovery::Proceed(n) => n,
        Discovery::Abort(e) => {
            return Err(QueryError::Native(e));
        },
    };
    let (code1, echoed, bytes) = string_out(s, expected);
    match fill_step(expected, code1, echoed, bytes.len()) {
        Ok(()) => {},
        Err(e) => {
            return Err(e);
        },
    }
    match unmarshal_in(bytes) {
        Some(text) => Ok(text),
        None => Err(QueryError::Mismatch { expected, found: 0 }),
    }
}

/// Copies the first `n` entries of a list, as the engine does when handed a
/// buffer with capacity for `n`.
fn copy_prefix(items: &Vec<usize>, n: usize) -> (r: Vec<usize>)
    requires
        n <= items@.len(),
    ensures
        r@ == items@.take(n as int),
{
    let mut out: Vec<usize> = Vec::new();
    let mut i: usize = 0;
    while i < n
        invariant
            i <= n <= items@.len(),
            out@ == items@.take(i as int),
        decreases n - i,
    {
        out.push(items[i]);
        proof {
            assert(out@ =~= items@.take(i + 1));
        }
        i = i + 1;
    }
    out
}

/// One native list query, as the ABI shapes it: given a buffer capacity, the
/// engine answers with a status code, the number of entries written, and the
/// entries themselves; it writes at most the capacity.
pub fn list_out(items: &Vec<usize>, capacity: usize) -> (r: (i32, usize, Vec<usize>))
    ensures
        r.0 == FMOD_OK,
        capacity >= items@.len() ==> r.1 == items@.len() && r.2@ == items@,
        capacity < items@.len() ==> r.1 == capacity && r.2@ == items@.take(capacity as int),
{
    if capacity >= items.len() {
        let n = items.len();
        let out = copy_prefix(items, n);
        proof {
            assert(items@.take(items@.len() as int) =~= items@);
        }
        (FMOD_OK, n, out)
    } else {
        (FMOD_OK, capacity, copy_prefix(items, capacity))
    }
}

/// The discovery call of a list query: reports how many entries the engine
/// holds.
pub fn count_out(items: &Vec<usize>) -> (r: (i32, usize))
    ensures
        r.0 == FMOD_OK,
        r.1 == items@.len(),
{
    (FMOD_OK, items.len())
}

/// Retrieves a list from the engine with the two-phase dance: discover the
/// count, fill with a buffer of exactly that capacity, and check that the
/// fill call wrote the same count the discovery call reported.
///
/// For every list the engine holds, the retrieved entries equal the entries
/// the engine holds, in order.
pub fn fetch_list(items: &Vec<usize>) -> (r: Result<Vec<usize>, QueryError>)
    ensures
        r is Ok,
        r->Ok_0@ == items@,
{
    let (code0, counted) = count_out(items);
    let expected = match discovery_step(code0, counted) {
        Discovery::Proceed(n) => n,
        Discovery::Abort(e) => {
            return Err(QueryError::Native(e));
        },
    };
    let (code1, echoed, entries) = list_out(items, expected);
    match fill_step(expected, code1, echoed, entries.len()) {
        Ok(()) => {},
        Err(e) => {
            return Err(e);
        },
    }
    Ok(entries)
}

} // verus!
