//! BLAKE2b as the transcript's hash function.
use vstd::prelude::*;
use crate::interfaces::Digest;

verus! {

/// The 512-bit BLAKE2b digest of a byte string.
pub uninterp spec fn blake2b_512(input: Seq<u8>) -> Seq<u8>;

/// Calls `Digest::digest` of the `digest` crate on `blake2::Blake2b512`. The
/// result is the BLAKE2b digest of `input`, which has 64 bytes; nothing else
/// about it is known to the verifier.
#[verifier::external_body]
fn blake2b_512_digest(input: &[u8]) -> (out: Vec<u8>)
    ensures
        out@ == blake2b_512(input@),
        out@.len() == 64,
{
    <blake2::Blake2b512 as digest::Digest>::digest(input).to_vec()
}

/// BLAKE2b with a 512-bit output.
#[derive(Clone, Copy, Debug)]
pub struct Blake2b;

impl Digest for Blake2b {
    open spec fn digest_spec(input: Seq<u8>) -> Seq<u8> {
        blake2b_512(input)
    }

    fn digest(input: &[u8]) -> (out: Vec<u8>)
        ensures
            out@.len() == 64,
    {
        blake2b_512_digest(input)
    }
}

} // verus!
