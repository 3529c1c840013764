use vstd::prelude::*;
use vstd::utf8::{decode_utf8, valid_utf8};

verus! {

/// The text that lossy UTF-8 decoding makes of a byte string.
pub uninterp spec fn lossy_utf8(b: Seq<u8>) -> Seq<char>;

/// Relies on `String::from_utf8_lossy`: invalid sequences become U+FFFD, and a
/// valid byte string decodes to exactly its characters.
#[verifier::external_body]
fn lossy_text(b: &[u8]) -> (r: String)
    ensures
        r@ == lossy_utf8(b@),
        valid_utf8(b@) ==> r@ == decode_utf8(b@),
{
    String::from_utf8_lossy(b).into_owned()
}

/// Decodes a string returned by the native library without assuming that it is
/// UTF-8: bytes that are not become replacement characters.
pub fn decode_text(raw: &[u8]) -> (r: String)
    ensures
        r@ == lossy_utf8(raw@),
        valid_utf8(raw@) ==> r@ == decode_utf8(raw@),
{
    lossy_text(raw)
}

/// Decodes one metadata entry of a module: its key and its value.
pub fn metadata_pair(key: &[u8], value: &[u8]) -> (r: (String, String))
    ensures
        r.0@ == lossy_utf8(key@),
        r.1@ == lossy_utf8(value@),
        valid_utf8(key@) ==> r.0@ == decode_utf8(key@),
        valid_utf8(value@) ==> r.1@ == decode_utf8(value@),
{
    (decode_text(key), decode_text(value))
}

} // verus!
