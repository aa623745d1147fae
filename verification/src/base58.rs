//! The Base58 codec, as this crate relies on it.
//!
//! Encoding and decoding are done by the `bs58` crate with its default
//! alphabet.  Nothing here is proved: the two functions below state what is
//! assumed of that crate, and the rest of the crate is verified against
//! these statements.

use vstd::prelude::*;

verus! {

/// The error type of `bs58`'s decoder, carried through unread.
#[verifier::external_type_specification]
#[verifier::external_body]
pub struct ExDecodeError(bs58::decode::Error);

/// The bytes that a text stands for in Base58 with the default alphabet, or
/// `None` where the text is not valid Base58.
pub uninterp spec fn base58_decoded(text: Seq<char>) -> Option<Seq<u8>>;

/// The Base58 text of a sequence of bytes, in the default alphabet.
pub uninterp spec fn base58_encoded(bytes: Seq<u8>) -> Seq<char>;

/// Calls `bs58::decode(..).into_vec()`.
///
/// Assumed: decoding is a function of the text alone; it gives the decoded
/// bytes where the text is valid Base58, and an error where it is not.
#[verifier::external_body]
pub(crate) fn decode_text(encoded: &str) -> (r: Result<Vec<u8>, bs58::decode::Error>)
    ensures
        match r {
            Ok(bytes) => base58_decoded(encoded@) == Some(bytes@),
            Err(_) => base58_decoded(encoded@) is None,
        },
{
    bs58::decode(encoded).into_vec()
}

/// Calls `bs58::encode(..).into_string()`.
///
/// Assumed: encoding is a function of the bytes alone.
#[verifier::external_body]
pub(crate) fn encode_bytes(bytes: &[u8; 32]) -> (r: String)
    ensures
        r@ == base58_encoded(bytes@),
{
    bs58::encode(bytes).into_string()
}

} // verus!
