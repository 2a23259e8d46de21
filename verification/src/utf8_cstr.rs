//! C strings that are known to hold UTF-8: the names of primops and of
//! namespaces.

use vstd::prelude::*;
use vstd::utf8::{decode_utf8, valid_utf8};

use crate::value::valid_name;

verus! {

/// std's error of decoding bytes that are not UTF-8; values of it are only
/// handed on.
#[verifier::external_type_specification]
#[verifier::external_body]
pub struct ExUtf8Error(std::str::Utf8Error);

/// Decodes `bytes` as UTF-8 (std's `str::from_utf8`). As std documents it,
/// the result is `Ok` exactly when the bytes are valid UTF-8, and then holds
/// the text they encode.
#[verifier::external_body]
fn str_from_utf8(bytes: &[u8]) -> (r: Result<&str, std::str::Utf8Error>)
    ensures
        r is Ok <==> valid_utf8(bytes@),
        r matches Ok(s) ==> s@ == decode_utf8(bytes@),
{
    std::str::from_utf8(bytes)
}

/// The bytes of a C string, without its terminating NUL, that are valid
/// UTF-8.
pub struct Utf8CStr {
    bytes: Vec<u8>,
}

impl View for Utf8CStr {
    type V = Seq<u8>;

    closed spec fn view(&self) -> Seq<u8> {
        self.bytes@
    }
}

impl Utf8CStr {
    /// The bytes hold no NUL and are valid UTF-8.
    #[verifier::type_invariant]
    spec fn inv(self) -> bool {
        &&& valid_name(self.bytes@)
        &&& valid_utf8(self.bytes@)
    }

    /// Checks that the bytes of the C string `cstr` are valid UTF-8.
    pub fn new(cstr: &[u8]) -> (r: Result<Utf8CStr, std::str::Utf8Error>)
        requires
            valid_name(cstr@),
        ensures
            r is Ok <==> valid_utf8(cstr@),
            r matches Ok(c) ==> c@ == cstr@,
    {
        match str_from_utf8(cstr) {
            Ok(_) => Ok(Utf8CStr { bytes: vstd::slice::slice_to_vec(cstr) }),
            Err(e) => Err(e),
        }
    }

    /// Wraps the bytes of the C string `cstr`, which the caller knows to be
    /// valid UTF-8.
    pub fn new_unchecked(cstr: &[u8]) -> (r: Utf8CStr)
        requires
            valid_name(cstr@),
            valid_utf8(cstr@),
        ensures
            r@ == cstr@,
    {
        Utf8CStr { bytes: vstd::slice::slice_to_vec(cstr) }
    }

    /// The bytes, without the terminating NUL.
    pub fn to_bytes(&self) -> (r: &[u8])
        ensures
            r@ == self@,
            valid_name(r@),
            valid_utf8(r@),
    {
        proof {
            use_type_invariant(self);
        }
        self.bytes.as_slice()
    }

    /// The text the bytes encode.
    pub fn as_str(&self) -> (r: &str)
        ensures
            r@ == decode_utf8(self@),
    {
        proof {
            use_type_invariant(self);
        }
        let s = str_from_utf8(self.bytes.as_slice());
        match s {
            Ok(s) => s,
            Err(_) => "",
        }
    }
}

} // verus!
