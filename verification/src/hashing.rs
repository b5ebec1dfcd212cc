//! Trusted interface to the outside digest function.
//!
//! The library treats the digest as an external collaborator: a
//! deterministic, one-way function from bytes to a fixed-length hex string.
//! Its result is given a name here and nothing else is assumed of it.

use vstd::prelude::*;

verus! {

/// The hex digest that the outside hash function assigns to a byte block.
pub uninterp spec fn digest_bytes(data: Seq<u8>) -> Seq<char>;

/// The hex digest that the outside hash function assigns to a string.
pub uninterp spec fn digest_chars(s: Seq<char>) -> Seq<char>;

/// Relies on sha256::digest for `&[u8]`: the hex encoding of the SHA-256 of
/// the block, 64 hex characters, a function of the bytes alone.
#[verifier::external_body]
pub(crate) fn digest_block(data: &[u8]) -> (r: String)
    ensures
        r@ == digest_bytes(data@),
        r@.len() == 64,
{
    sha256::digest(data)
}

/// Relies on sha256::digest for `String`: the hex encoding of the SHA-256 of
/// the UTF-8 bytes of the concatenation `left ++ right`, 64 hex characters, a
/// function of the characters alone.
#[verifier::external_body]
pub(crate) fn digest_pair(left: &str, right: &str) -> (r: String)
    ensures
        r@ == digest_chars(left@ + right@),
        r@.len() == 64,
{
    sha256::digest(format!("{}{}", left, right))
}

} // verus!
