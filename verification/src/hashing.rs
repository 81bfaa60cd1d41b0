//! Content hashing: the stable digest a file's bytes are identified by.

use vstd::prelude::*;

verus! {

/// The hex digest of a byte sequence: a function of the content alone.
pub uninterp spec fn sha1_hex_of(data: Seq<u8>) -> Seq<char>;

/// Relies on `sha1::Sha1` (`from`, `digest` and the digest's `Display`):
/// returns the hex form of the digest of exactly the given bytes — forty
/// lowercase hex characters, a function of the content alone.
#[verifier::external_body]
fn sha1_hex(data: &[u8]) -> (r: String)
    ensures
        r@ == sha1_hex_of(data@),
        r@.len() == 40,
{
    sha1::Sha1::from(data).digest().to_string()
}

/// The hex digest of the given bytes, as the walker records it for a
/// regular file's content.
pub fn checksum(data: &[u8]) -> (r: String)
    ensures
        r@ == sha1_hex_of(data@),
        r@.len() == 40,
{
    sha1_hex(data)
}

} // verus!
