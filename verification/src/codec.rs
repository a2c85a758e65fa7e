//! Base64, by the `base64` crate: the standard alphabet, with padding.

use base64::engine::general_purpose::STANDARD;
use base64::Engine;
use vstd::prelude::*;

verus! {

/// The base64 encoding of `bytes`, in the standard alphabet and with
/// padding.
pub uninterp spec fn base64_standard(bytes: Seq<u8>) -> Seq<char>;

/// What decoding `text` as base64 gives, in the standard alphabet and with
/// padding: the bytes, or the decoder's words on why it is no encoding.
pub uninterp spec fn base64_decoded(text: Seq<char>) -> Result<Seq<u8>, Seq<char>>;

/// The view of a decoding result.
pub open spec fn bytes_of(r: Result<Vec<u8>, String>) -> Result<Seq<u8>, Seq<char>> {
    match r {
        Ok(bytes) => Ok(bytes@),
        Err(e) => Err(e@),
    }
}

/// The longest input that is handed to the encoder: half of what `usize`
/// can count. The encoder fails only where the length of the encoding would
/// not fit in `usize`, which is a third more than the input's.
pub open spec fn encodable_len() -> int {
    (usize::MAX / 2) as int
}

/// `STANDARD.encode` of the `base64` crate: the encoding of `data`. The
/// encoder reads nothing but its argument.
#[verifier::external_body]
pub(crate) fn base64_encode(data: &[u8]) -> (encoded: String)
    requires
        data@.len() <= encodable_len(),
    ensures
        encoded@ == base64_standard(data@),
{
    STANDARD.encode(data)
}

/// `STANDARD.decode` of the `base64` crate: the bytes that `text` encodes,
/// or the text of the decoder's error. The decoder reads nothing but its
/// argument.
#[verifier::external_body]
pub(crate) fn base64_decode(text: &str) -> (decoded: Result<Vec<u8>, String>)
    ensures
        bytes_of(decoded) == base64_decoded(text@),
{
    match STANDARD.decode(text) {
        Ok(bytes) => Ok(bytes),
        Err(e) => Err(e.to_string()),
    }
}

} // verus!
