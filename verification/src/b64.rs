//! Base64 rendering of reassembled frame payloads, through the `base64`
//! crate's standard engine.

use base64::Engine;
use vstd::prelude::*;

verus! {

/// The standard padded base64 rendering of a byte string.
pub uninterp spec fn base64_of(b: Seq<u8>) -> Seq<char>;

/// What the standard engine's decode returns on a character string. No
/// wrapper calls decode, so the only fact known of this name is the
/// round-trip clause on `base64_encode` below: decoding an encode output
/// recovers the input bytes.
pub uninterp spec fn base64_decode_of(s: Seq<char>) -> Option<Seq<u8>>;

/// Relies on `base64::engine::general_purpose::STANDARD.encode`: the standard
/// alphabet with padding, so the output holds four characters for every three
/// input bytes rounded up, is a function of the input bytes alone, and
/// `STANDARD.decode` recovers exactly the input from it.
#[verifier::external_body]
pub fn base64_encode(bytes: &[u8]) -> (r: String)
    ensures
        r@ == base64_of(bytes@),
        r@.len() == 4 * ((bytes@.len() + 2) / 3),
        base64_decode_of(r@) == Some(bytes@),
{
    base64::engine::general_purpose::STANDARD.encode(bytes)
}

} // verus!
