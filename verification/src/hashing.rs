//! Content-hash boundary: the one digest algorithm used for both per-chunk
//! and whole-file integrity hashes.
use vstd::prelude::*;
use sha2::Digest;

verus! {

/// Lower-hex digest of a byte sequence under the crate's fixed content-hash
/// algorithm. Uninterpreted: `sha256_hex` below ties it to the outside
/// implementation, and every contract about hashes speaks through this name.
pub uninterp spec fn digest_of(data: Seq<u8>) -> Seq<char>;

/// Relies on sha2::Sha256 (through digest::Digest::digest): the 32-byte
/// digest is a function of the input bytes alone, rendered here as 64
/// lower-hex characters, two per output byte.
#[verifier::external_body]
pub(crate) fn sha256_hex(data: &[u8]) -> (r: String)
    ensures
        r@ == digest_of(data@),
        r@.len() == 64,
{
    let digest = sha2::Sha256::digest(data);
    let mut out = String::new();
    for byte in digest.as_slice() {
        out.push_str(&format!("{:02x}", byte));
    }
    out
}

} // verus!
