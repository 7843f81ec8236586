//! Contracts for the few std functions that vstd leaves unspecified.
use vstd::prelude::*;

verus! {

/// `String::push` appends one character: the std documentation says
/// "Appends the given char to the end of this String".
pub assume_specification[ String::push ](s: &mut String, ch: char)
    ensures
        final(s)@ == old(s)@.push(ch),
;

/// What `String::from_utf8_lossy` makes of `bytes`: their UTF-8 decoding, with each
/// invalid sequence replaced by U+FFFD.
pub uninterp spec fn lossy_utf8(bytes: Seq<u8>) -> Seq<char>;

/// Calls `String::from_utf8_lossy` and takes the owned text. The result is named by
/// `lossy_utf8`; the std documentation also says that valid UTF-8 is decoded as it
/// stands, which the second clause states with vstd's `decode_utf8`.
#[verifier::external_body]
pub(crate) fn utf8_lossy(bytes: &[u8]) -> (s: String)
    ensures
        s@ == lossy_utf8(bytes@),
        vstd::utf8::valid_utf8(bytes@) ==> s@ == vstd::utf8::decode_utf8(bytes@),
{
    String::from_utf8_lossy(bytes).into_owned()
}

} // verus!
