//! BLAKE3 content digests, rendered as lowercase hexadecimal text.
use vstd::prelude::*;

verus! {

/// The text of `blake3::hash(data).to_hex()`: the 32-byte BLAKE3 digest of
/// `data`, two lowercase hexadecimal digits per byte.
pub uninterp spec fn blake3_hex(data: Seq<u8>) -> Seq<char>;

/// Calls `blake3::hash` and renders the digest with `Hash::to_hex`.
///
/// Trusted: the result is the named digest of the bytes, and `to_hex` writes
/// two characters for each of the 32 digest bytes. Which digits they are is
/// left to the name.
#[verifier::external_body]
pub fn hash_hex(data: &[u8]) -> (r: String)
    ensures
        r@ == blake3_hex(data@),
        r@.len() == 64,
{
    blake3::hash(data).to_hex().to_string()
}

} // verus!
