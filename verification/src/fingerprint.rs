//! Fingerprints: the BLAKE2b digest of a value's UTF-8 bytes.

use blake2::{Blake2b, Digest};
use vstd::prelude::*;
use vstd::utf8::encode_utf8;

verus! {

/// Number of bytes in every fingerprint.
pub const FINGERPRINT_LEN: usize = 64;

/// The BLAKE2b digest of `data` with 64 bytes of output, no key, no salt and
/// no personalisation, as `blake2::Blake2b` computes it.
pub uninterp spec fn blake2b_512(data: Seq<u8>) -> Seq<u8>;

/// The fingerprint of a field's value: the digest of its UTF-8 encoding.
pub open spec fn fingerprint_of(value: Seq<char>) -> Seq<u8> {
    blake2b_512(encode_utf8(value))
}

/// Calls `<blake2::Blake2b as blake2::Digest>::digest`.
///
/// Trusted: the result depends on the bytes of `data` alone, and it is 64
/// bytes long (the hasher's `OutputSize` is `U64`).
#[verifier::external_body]
fn blake2b(data: &[u8]) -> (out: Vec<u8>)
    ensures
        out@ == blake2b_512(data@),
        out@.len() == FINGERPRINT_LEN,
{
    Blake2b::digest(data).to_vec()
}

/// Computes the fingerprint of `value`.
pub fn fingerprint(value: &str) -> (fp: Vec<u8>)
    ensures
        fp@ == fingerprint_of(value@),
        fp@.len() == FINGERPRINT_LEN,
{
    blake2b(value.as_bytes())
}

/// Equal values have equal fingerprints.
pub proof fn lemma_fingerprint_deterministic(a: Seq<char>, b: Seq<char>)
    requires
        a == b,
    ensures
        fingerprint_of(a) == fingerprint_of(b),
{
}

} // verus!
