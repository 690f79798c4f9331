//! Fiat-Shamir challenges: a scalar and its inverse, derived by rejection
//! sampling from the previous challenge and the round's two cross-commitments.
use vstd::prelude::*;
use crate::interfaces::{Digest, Field, ToBytes};

verus! {

/// The eight bytes of `counter`, most significant first.
pub open spec fn counter_encoding(counter: u64) -> Seq<u8> {
    seq![
        ((counter / 0x100_0000_0000_0000) % 256) as u8,
        ((counter / 0x1_0000_0000_0000) % 256) as u8,
        ((counter / 0x100_0000_0000) % 256) as u8,
        ((counter / 0x1_0000_0000) % 256) as u8,
        ((counter / 0x100_0000) % 256) as u8,
        ((counter / 0x1_0000) % 256) as u8,
        ((counter / 0x100) % 256) as u8,
        (counter % 256) as u8,
    ]
}

/// What is hashed for one attempt: the counter, the previous marker, then the
/// six cross-commitments, left triple first.
pub open spec fn hash_input_spec<S: Field, O1: ToBytes, O2: ToBytes, O3: ToBytes>(
    counter: u64,
    prev: S,
    com_1: (O1, O2, O3),
    com_2: (O1, O2, O3),
) -> Seq<u8> {
    counter_encoding(counter) + prev.encoding() + com_1.0.encoding() + com_1.1.encoding()
        + com_1.2.encoding() + com_2.0.encoding() + com_2.1.encoding() + com_2.2.encoding()
}

/// The challenge that a digest yields: the scalar it stands for, with its
/// inverse, where both exist.
pub open spec fn challenge_of_digest<S: Field>(digest: Seq<u8>) -> Option<(S, S)> {
    match S::from_random_bytes_spec(digest) {
        Some(c) => match c.inverse_spec() {
            Some(c_inv) => Some((c, c_inv)),
            None => None,
        },
        None => None,
    }
}

/// The challenge that the attempt numbered `counter` yields, if it is accepted.
pub open spec fn challenge_at<S: Field, O1: ToBytes, O2: ToBytes, O3: ToBytes, D: Digest>(
    counter: u64,
    prev: S,
    com_1: (O1, O2, O3),
    com_2: (O1, O2, O3),
) -> Option<(S, S)> {
    challenge_of_digest::<S>(D::digest_spec(hash_input_spec(counter, prev, com_1, com_2)))
}

/// The first accepted challenge among the attempts numbered `start` and up.
pub open spec fn challenge_from<S: Field, O1: ToBytes, O2: ToBytes, O3: ToBytes, D: Digest>(
    start: u64,
    prev: S,
    com_1: (O1, O2, O3),
    com_2: (O1, O2, O3),
) -> Option<(S, S)>
    decreases u64::MAX - start,
{
    match challenge_at::<S, O1, O2, O3, D>(start, prev, com_1, com_2) {
        Some(pair) => Some(pair),
        None => if start == u64::MAX {
            None
        } else {
            challenge_from::<S, O1, O2, O3, D>((start + 1) as u64, prev, com_1, com_2)
        },
    }
}

/// The round's challenge: the first accepted one, counting from zero.
pub open spec fn next_challenge_spec<S: Field, O1: ToBytes, O2: ToBytes, O3: ToBytes, D: Digest>(
    prev: S,
    com_1: (O1, O2, O3),
    com_2: (O1, O2, O3),
) -> Option<(S, S)> {
    challenge_from::<S, O1, O2, O3, D>(0, prev, com_1, com_2)
}

/// Appends the eight bytes of `counter`, most significant first.
pub fn write_counter(counter: u64, out: &mut Vec<u8>)
    ensures
        final(out)@ == old(out)@ + counter_encoding(counter),
{
    out.push(((counter / 0x100_0000_0000_0000) % 256) as u8);
    out.push(((counter / 0x1_0000_0000_0000) % 256) as u8);
    out.push(((counter / 0x100_0000_0000) % 256) as u8);
    out.push(((counter / 0x1_0000_0000) % 256) as u8);
    out.push(((counter / 0x100_0000) % 256) as u8);
    out.push(((counter / 0x1_0000) % 256) as u8);
    out.push(((counter / 0x100) % 256) as u8);
    out.push((counter % 256) as u8);
    assert(out@ =~= old(out)@ + counter_encoding(counter));
}

/// Builds the bytes that are hashed for the attempt numbered `counter`.
pub fn hash_input<S: Field, O1: ToBytes, O2: ToBytes, O3: ToBytes>(
    counter: u64,
    prev: &S,
    com_1: &(O1, O2, O3),
    com_2: &(O1, O2, O3),
) -> (out: Vec<u8>)
    ensures
        out@ == hash_input_spec(counter, *prev, *com_1, *com_2),
{
    let mut out: Vec<u8> = Vec::new();
    write_counter(counter, &mut out);
    assert(out@ =~= counter_encoding(counter));
    prev.write(&mut out);
    com_1.0.write(&mut out);
    com_1.1.write(&mut out);
    com_1.2.write(&mut out);
    com_2.0.write(&mut out);
    com_2.1.write(&mut out);
    com_2.2.write(&mut out);
    out
}

/// Turns a digest into a challenge: accepted exactly where the digest stands
/// for a scalar and that scalar has an inverse.
pub fn challenge_from_digest<S: Field>(digest: &[u8]) -> (r: Option<(S, S)>)
    ensures
        r == challenge_of_digest::<S>(digest@),
{
    match S::from_random_bytes(digest) {
        Some(c) => match c.inverse() {
            Some(c_inv) => Some((c, c_inv)),
            None => None,
        },
        None => None,
    }
}

/// Derives the round's challenge and its inverse. `None` only where no
/// counter value at all yields an invertible scalar.
pub fn next_challenge<S: Field, O1: ToBytes, O2: ToBytes, O3: ToBytes, D: Digest>(
    prev: &S,
    com_1: &(O1, O2, O3),
    com_2: &(O1, O2, O3),
) -> (r: Option<(S, S)>)
    ensures
        r == next_challenge_spec::<S, O1, O2, O3, D>(*prev, *com_1, *com_2),
        r matches Some(pair) ==> pair.0.inverse_spec() == Some(pair.1),
{
    let mut counter: u64 = 0;
    loop
        invariant
            challenge_from::<S, O1, O2, O3, D>(counter, *prev, *com_1, *com_2)
                == next_challenge_spec::<S, O1, O2, O3, D>(*prev, *com_1, *com_2),
        decreases u64::MAX - counter,
    {
        let input = hash_input(counter, prev, com_1, com_2);
        let digest = D::digest(input.as_slice());
        let found: Option<(S, S)> = challenge_from_digest::<S>(digest.as_slice());
        if found.is_some() {
            return found;
        }
        if counter == u64::MAX {
            return None;
        }
        counter = counter + 1;
    }
}

/// An accepted challenge comes with its inverse.
pub proof fn lemma_challenge_from_inverse<
    S: Field,
    O1: ToBytes,
    O2: ToBytes,
    O3: ToBytes,
    D: Digest,
>(start: u64, prev: S, com_1: (O1, O2, O3), com_2: (O1, O2, O3))
    ensures
        challenge_from::<S, O1, O2, O3, D>(start, prev, com_1, com_2) matches Some(pair)
            ==> pair.0.inverse_spec() == Some(pair.1),
    decreases u64::MAX - start,
{
    if challenge_at::<S, O1, O2, O3, D>(start, prev, com_1, com_2) is None && start < u64::MAX {
        lemma_challenge_from_inverse::<S, O1, O2, O3, D>(
            (start + 1) as u64,
            prev,
            com_1,
            com_2,
        );
    }
}

} // verus!
