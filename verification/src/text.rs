//! Text marshaling across the native boundary.
//!
//! Text leaving the wrapper must be nul-terminated UTF-8 with no interior nul
//! byte; text arriving from the engine is a nul-terminated byte buffer that
//! is decoded back, with a checked conversion rather than a trusted one.

use vstd::prelude::*;
use vstd::string::StrSliceExecFns;
use vstd::string::StringSliceAdditionalSpecFns;
use vstd::utf8::decode_utf8;
use vstd::utf8::valid_utf8;

use crate::error::FmodError;
use crate::error::FMOD_ERR_INVALID_STRING;

verus! {

/// Whether a byte sequence contains a nul byte anywhere.
pub open spec fn has_nul(b: Seq<u8>) -> bool {
    exists|i: int| 0 <= i < b.len() && b[i] == 0u8
}

/// Whether a string can cross the boundary as a C string: its UTF-8 bytes
/// contain no nul byte.
pub open spec fn c_representable(s: Seq<char>) -> bool {
    !has_nul(vstd::utf8::encode_utf8(s))
}

#[verifier::external_type_specification]
#[verifier::external_body]
pub struct ExUtf8CString(lanyard::Utf8CString);

/// Relies on lanyard's Utf8CString::new, which appends the trailing nul and
/// fails exactly when the supplied string already contains a nul byte.
#[verifier::external_body]
fn c_string_of(s: &str) -> (r: Option<lanyard::Utf8CString>)
    ensures
        r is Some <==> !has_nul(s.spec_bytes()),
{
    lanyard::Utf8CString::new(s).ok()
}

/// Relies on String::from_utf8, which succeeds exactly on well-formed UTF-8
/// and returns the string those bytes encode.
#[verifier::external_body]
fn string_from_utf8(v: Vec<u8>) -> (r: Option<String>)
    ensures
        r is Some <==> valid_utf8(v@),
        r is Some ==> r->0@ == decode_utf8(v@),
{
    String::from_utf8(v).ok()
}

/// Builds the C form of a string for the engine-bound direction, or reports
/// the string as unrepresentable.
///
/// Succeeds exactly when the string's UTF-8 bytes hold no nul byte; the
/// failure carries the invalid-string status code.
pub fn marshal_out(s: &str) -> (r: Result<(), FmodError>)
    ensures
        r is Ok <==> c_representable(s@),
        r is Err ==> r->Err_0.code == FMOD_ERR_INVALID_STRING,
{
    match c_string_of(s) {
        Some(_) => Ok(()),
        None => Err(FmodError { code: FMOD_ERR_INVALID_STRING }),
    }
}

/// The nul-terminated byte image of a string, as the engine emits it.
pub open spec fn terminated_bytes(s: Seq<char>) -> Seq<u8> {
    vstd::utf8::encode_utf8(s).push(0u8)
}

/// Appends the terminator to a string's UTF-8 bytes.
pub fn terminate(s: &String) -> (r: Vec<u8>)
    ensures
        r@ == terminated_bytes(s@),
        r@.len() == vstd::utf8::encode_utf8(s@).len() + 1,
{
    let mut v: Vec<u8> = s.as_str().as_bytes_vec();
    v.push(0u8);
    v
}

/// Decodes a nul-terminated buffer received from the engine back into the
/// string it carries.
///
/// Succeeds exactly when the buffer ends in the terminator and the preceding
/// bytes are well-formed UTF-8; a buffer the engine produced from a string
/// decodes back to that string.
pub fn unmarshal_in(mut v: Vec<u8>) -> (r: Option<String>)
    ensures
        r is Some <==> v@.len() > 0 && v@.last() == 0u8 && valid_utf8(v@.drop_last()),
        r is Some ==> r->0@ == decode_utf8(v@.drop_last()),
        forall|s: Seq<char>| v@ == terminated_bytes(s) ==> r is Some && r->0@ == s,
{
    proof {
        broadcast use vstd::utf8::encode_utf8_valid_utf8;
        broadcast use vstd::utf8::encode_utf8_decode_utf8;

        assert(forall|s: Seq<char>|
            v@ == terminated_bytes(s) ==> v@.drop_last() =~= vstd::utf8::encode_utf8(s));
    }
    if v.len() == 0 {
        return None;
    }
    let last = v.pop().unwrap();
    if last != 0u8 {
        return None;
    }
    string_from_utf8(v)
}

/// The byte length of a string's UTF-8 image, which is what a size-discovery
/// call reports, less the terminator.
pub fn payload_len(s: &String) -> (r: usize)
    ensures
        r == vstd::utf8::encode_utf8(s@).len(),
{
    let v: Vec<u8> = s.as_str().as_bytes_vec();
    v.len()
}

/// Compares a borrowed string with an owned one by contents.
pub fn str_eq_string(a: &str, b: &String) -> (r: bool)
    ensures
        r == (a@ == b@),
{
    let owned: String = a.to_owned();
    owned == *b
}

} // verus!
