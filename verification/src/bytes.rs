//! Bytes as text: the standard base64 alphabet, with padding.

use vstd::prelude::*;

verus! {

/// The base64 text of `bytes`.
pub uninterp spec fn base64_encoded(bytes: Seq<u8>) -> Seq<char>;

/// The bytes that the base64 text `text` stands for; `None` where it is
/// malformed.
pub uninterp spec fn base64_decoded(text: Seq<char>) -> Option<Seq<u8>>;

/// Whether the base64 text of `bytes` is read back as `bytes`: what the
/// wrapper of `base64::encode` states of every text that it has written.
pub open spec fn reads_back(bytes: Seq<u8>) -> bool {
    base64_decoded(base64_encoded(bytes)) == Some(bytes)
}

/// Calls `base64::encode`, which writes `bytes` in the standard alphabet
/// with padding. The text depends on the bytes alone, and reading it with
/// `base64::decode` gives the bytes back. (It cannot overflow on the size of
/// the text: a vector is never longer than `isize::MAX` bytes.)
#[verifier::external_body]
pub(crate) fn encode_base64(bytes: &Vec<u8>) -> (r: String)
    ensures
        r@ == base64_encoded(bytes@),
        base64_decoded(r@) == Some(bytes@),
{
    base64::encode(bytes)
}

/// Calls `base64::decode`, which reads `text` in the standard alphabet with
/// padding, and fails on a character outside the alphabet, on a length that
/// no text has, and on left-over bits. What it gives depends on the text
/// alone.
#[verifier::external_body]
pub(crate) fn decode_base64(text: &String) -> (r: Option<Vec<u8>>)
    ensures
        match base64_decoded(text@) {
            Some(bytes) => r is Some && r->0@ == bytes,
            None => r is None,
        },
{
    base64::decode(text).ok()
}

} // verus!
