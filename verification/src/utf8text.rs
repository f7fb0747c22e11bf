//! Turning stored bytes back into text.

use vstd::prelude::*;
use vstd::string::StringSliceAdditionalSpecFns;
use vstd::utf8::valid_utf8;

verus! {

/// Views `bytes` as text when they are valid UTF-8.
///
/// Calls `core::str::from_utf8`, which by its documentation succeeds exactly
/// on valid UTF-8 and then borrows the same bytes as a `&str`; this contract
/// states that with vstd's definition of valid UTF-8.
#[verifier::external_body]
pub(crate) fn str_from_utf8(bytes: &[u8]) -> (r: Option<&str>)
    ensures
        r is Some <==> valid_utf8(bytes@),
        r matches Some(s) ==> s.spec_bytes() == bytes@,
{
    core::str::from_utf8(bytes).ok()
}

} // verus!
