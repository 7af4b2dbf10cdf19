//! Text that crosses the byte boundary.

use vstd::prelude::*;
use vstd::utf8::*;

verus! {

/// Decodes UTF-8 with `String::from_utf8`.
///
/// Trusted: the standard library accepts exactly the byte strings that are
/// valid UTF-8, and the string it builds holds the characters they encode.
#[verifier::external_body]
pub(crate) fn text_from_utf8(bytes: &[u8]) -> (text: Option<String>)
    ensures
        text is Some <==> valid_utf8(bytes@),
        text matches Some(s) ==> s@ == decode_utf8(bytes@),
{
    String::from_utf8(bytes.to_vec()).ok()
}

} // verus!
