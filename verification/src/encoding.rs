//! Base58 text of raw bytes, as the `bs58` crate produces it.

use vstd::prelude::*;

verus! {

/// The base58 text, in the default (Bitcoin) alphabet, of a sequence of bytes.
///
/// The text is computed by the `bs58` crate and is a function of the bytes
/// alone; nothing else about it is stated here.
pub uninterp spec fn base58_text(bytes: Seq<u8>) -> Seq<char>;

/// Calls `bs58::encode(bytes).into_string()`.
///
/// Trusted: the string handed back is the base58 text of the input. The
/// encoder grows its own output buffer, so the call cannot run out of room.
#[verifier::external_body]
fn bs58_encode(bytes: &[u8]) -> (text: String)
    ensures
        text@ == base58_text(bytes@),
{
    bs58::encode(bytes).into_string()
}

/// Encodes raw bytes as base58 text.
pub fn encode_base58(bytes: &[u8]) -> (text: String)
    ensures
        text@ == base58_text(bytes@),
{
    bs58_encode(bytes)
}

/// Encoding is repeatable: the same bytes give the same text, however often
/// and wherever they are encoded.
pub proof fn lemma_encoding_repeatable(first: Seq<u8>, second: Seq<u8>)
    requires
        first == second,
    ensures
        base58_text(first) == base58_text(second),
{
}

} // verus!
