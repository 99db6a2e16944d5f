use vstd::prelude::*;

use sha2::Digest;

verus! {

/// The lowercase hex rendering of the SHA-256 digest of `data`.
pub uninterp spec fn sha256_hex(data: Seq<u8>) -> Seq<char>;

/// A lowercase hexadecimal digit.
pub open spec fn is_lower_hex(c: char) -> bool {
    ('0' <= c && c <= '9') || ('a' <= c && c <= 'f')
}

/// Relies on `sha2::Sha256::digest` (a 32-byte digest) and on the `LowerHex`
/// impl of `generic_array::GenericArray`, which writes two lowercase digits
/// per byte.
#[verifier::external_body]
pub fn simple_sha256(data: &[u8]) -> (r: String)
    ensures
        r@ == sha256_hex(data@),
        r@.len() == 64,
        forall|i: int| 0 <= i < r@.len() ==> is_lower_hex(#[trigger] r@[i]),
{
    format!("{:x}", sha2::Sha256::digest(data))
}

} // verus!
