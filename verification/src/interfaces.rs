//! The collaborators that the argument is parameterised over: a scalar field,
//! modules over it, doubly-homomorphic commitments, an inner-product operator,
//! a hash function and a source of randomness.
use vstd::prelude::*;

verus! {

/// A value with a canonical byte encoding.
pub trait ToBytes {
    /// The canonical encoding of the value.
    spec fn encoding(&self) -> Seq<u8>;

    /// Appends the canonical encoding to `out`.
    fn write(&self, out: &mut Vec<u8>)
        ensures
            final(out)@ == old(out)@ + self.encoding(),
    ;
}

/// An element of the scalar field shared by the three commitments.
pub trait Field: Copy + ToBytes {
    /// The additive identity, which is the first transcript marker.
    spec fn zero_spec() -> Self;

    /// The element that a hash output stands for, if it stands for one.
    spec fn from_random_bytes_spec(bytes: Seq<u8>) -> Option<Self>;

    /// The multiplicative inverse, where there is one.
    spec fn inverse_spec(self) -> Option<Self>;

    fn zero() -> (r: Self)
        ensures
            r == Self::zero_spec(),
    ;

    fn from_random_bytes(bytes: &[u8]) -> (r: Option<Self>)
        ensures
            r == Self::from_random_bytes_spec(bytes@),
    ;

    fn inverse(&self) -> (r: Option<Self>)
        ensures
            r == self.inverse_spec(),
    ;
}

/// An element of an abelian group on which the scalars `S` act from the left.
pub trait Module<S>: Copy {
    /// The sum of two elements.
    spec fn plus_spec(self, other: Self) -> Self;

    /// The element multiplied by the scalar `c`.
    spec fn scaled_spec(self, c: S) -> Self;

    fn plus(&self, other: &Self) -> (r: Self)
        ensures
            r == self.plus_spec(*other),
    ;

    fn scaled(&self, c: &S) -> (r: Self)
        ensures
            r == self.scaled_spec(*c),
    ;

    fn same(&self, other: &Self) -> (r: bool)
        ensures
            r == (*self == *other),
    ;
}

/// A source of random 64-bit words.
pub trait RandomSource {
    fn next_u64(&mut self) -> u64;
}

/// A hash function on byte strings.
pub trait Digest {
    /// The digest of `input`.
    spec fn digest_spec(input: Seq<u8>) -> Seq<u8>;

    fn digest(input: &[u8]) -> (out: Vec<u8>)
        ensures
            out@ == Self::digest_spec(input@),
    ;
}

/// A commitment scheme whose messages, keys and outputs are modules over one
/// scalar field.
pub trait DoublyHomomorphicCommitment {
    type Scalar: Field;

    type Message: Module<Self::Scalar>;

    type Key: Module<Self::Scalar>;

    type Output: Module<Self::Scalar> + ToBytes;

    /// The commitment to `msgs` under `keys`; meaningful where both have one
    /// length.
    spec fn commit_spec(keys: Seq<Self::Key>, msgs: Seq<Self::Message>) -> Self::Output;

    /// Draws `size` keys.
    fn setup<R: RandomSource>(rng: &mut R, size: usize) -> (keys: Vec<Self::Key>)
        ensures
            keys@.len() == size,
    ;

    fn commit(keys: &[Self::Key], msgs: &[Self::Message]) -> (r: Self::Output)
        requires
            keys@.len() == msgs@.len(),
        ensures
            r == Self::commit_spec(keys@, msgs@),
    ;

    /// Recomputes the commitment and compares it with `output`.
    fn verify(keys: &[Self::Key], msgs: &[Self::Message], output: &Self::Output) -> (r: bool)
        requires
            keys@.len() == msgs@.len(),
        ensures
            r == (Self::commit_spec(keys@, msgs@) == *output),
    ;
}

/// A bilinear operator on two message vectors of one length.
pub trait InnerProduct {
    type LeftMessage;

    type RightMessage;

    type Output;

    /// The inner product of `left` and `right`; meaningful where both have one
    /// length.
    spec fn inner_product_spec(
        left: Seq<Self::LeftMessage>,
        right: Seq<Self::RightMessage>,
    ) -> Self::Output;

    fn inner_product(left: &[Self::LeftMessage], right: &[Self::RightMessage]) -> (r: Self::Output)
        requires
            left@.len() == right@.len(),
        ensures
            r == Self::inner_product_spec(left@, right@),
    ;
}

} // verus!
