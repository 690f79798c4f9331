//! Instances over the field of order 2^61 - 1: the scalar inner product, a
//! commitment that is linear in keys and messages, and the commitment that
//! hands its message back.
use vstd::prelude::*;
use crate::interfaces::{
    DoublyHomomorphicCommitment, Field, InnerProduct, Module, RandomSource,
};
use crate::prime_field::Fp61;

verus! {

/// The sum of the products `a[i] * b[i]` over the positions that both have.
pub open spec fn dot_spec(a: Seq<Fp61>, b: Seq<Fp61>) -> Fp61
    decreases a.len(),
{
    if a.len() == 0 || b.len() == 0 {
        Fp61 { value: 0 }
    } else {
        dot_spec(a.drop_last(), b.drop_last()).plus_spec(a.last().scaled_spec(b.last()))
    }
}

/// The dot product of two vectors of one length.
pub fn dot(a: &[Fp61], b: &[Fp61]) -> (r: Fp61)
    requires
        a@.len() == b@.len(),
    ensures
        r == dot_spec(a@, b@),
{
    let n: usize = a.len();
    let mut acc = Fp61::zero();
    let mut i: usize = 0;
    while i < n
        invariant
            n == a@.len(),
            n == b@.len(),
            i <= n,
            acc == dot_spec(a@.subrange(0, i as int), b@.subrange(0, i as int)),
        decreases n - i,
    {
        assert(a@.subrange(0, i + 1).drop_last() =~= a@.subrange(0, i as int));
        assert(b@.subrange(0, i + 1).drop_last() =~= b@.subrange(0, i as int));
        acc = acc.plus(&a[i].scaled(&b[i]));
        i = i + 1;
    }
    assert(a@.subrange(0, n as int) =~= a@);
    assert(b@.subrange(0, n as int) =~= b@);
    acc
}

/// The inner product of two vectors of scalars.
#[derive(Clone, Copy, Debug)]
pub struct ScalarInnerProduct;

impl InnerProduct for ScalarInnerProduct {
    type LeftMessage = Fp61;

    type RightMessage = Fp61;

    type Output = Fp61;

    open spec fn inner_product_spec(left: Seq<Fp61>, right: Seq<Fp61>) -> Fp61 {
        dot_spec(left, right)
    }

    fn inner_product(left: &[Fp61], right: &[Fp61]) -> (r: Fp61) {
        dot(left, right)
    }
}

/// The commitment `sum of keys[i] * msgs[i]`, with keys and messages in the
/// field itself.
#[derive(Clone, Copy, Debug)]
pub struct LinearCommitment;

impl DoublyHomomorphicCommitment for LinearCommitment {
    type Scalar = Fp61;

    type Message = Fp61;

    type Key = Fp61;

    type Output = Fp61;

    open spec fn commit_spec(keys: Seq<Fp61>, msgs: Seq<Fp61>) -> Fp61 {
        dot_spec(keys, msgs)
    }

    fn setup<R: RandomSource>(rng: &mut R, size: usize) -> (keys: Vec<Fp61>) {
        let mut keys: Vec<Fp61> = Vec::new();
        let mut i: usize = 0;
        while i < size
            invariant
                i <= size,
                keys@.len() == i,
            decreases size - i,
        {
            keys.push(Fp61::new(rng.next_u64()));
            i = i + 1;
        }
        keys
    }

    fn commit(keys: &[Fp61], msgs: &[Fp61]) -> (r: Fp61) {
        dot(keys, msgs)
    }

    fn verify(keys: &[Fp61], msgs: &[Fp61], output: &Fp61) -> (r: bool) {
        dot(keys, msgs).same(output)
    }
}

/// The key of a commitment that needs none.
#[derive(Clone, Copy, Debug, PartialEq, Eq)]
pub struct Placeholder;

impl Module<Fp61> for Placeholder {
    open spec fn plus_spec(self, other: Self) -> Self {
        Placeholder
    }

    open spec fn scaled_spec(self, c: Fp61) -> Self {
        Placeholder
    }

    fn plus(&self, other: &Self) -> (r: Self) {
        Placeholder
    }

    fn scaled(&self, c: &Fp61) -> (r: Self) {
        Placeholder
    }

    fn same(&self, other: &Self) -> (r: bool) {
        true
    }
}

/// The commitment that is its first message, or zero where there is none.
#[derive(Clone, Copy, Debug)]
pub struct IdentityCommitment;

impl DoublyHomomorphicCommitment for IdentityCommitment {
    type Scalar = Fp61;

    type Message = Fp61;

    type Key = Placeholder;

    type Output = Fp61;

    open spec fn commit_spec(keys: Seq<Placeholder>, msgs: Seq<Fp61>) -> Fp61 {
        if msgs.len() == 0 {
            Fp61 { value: 0 }
        } else {
            msgs[0]
        }
    }

    fn setup<R: RandomSource>(rng: &mut R, size: usize) -> (keys: Vec<Placeholder>) {
        let mut keys: Vec<Placeholder> = Vec::new();
        let mut i: usize = 0;
        while i < size
            invariant
                i <= size,
                keys@.len() == i,
            decreases size - i,
        {
            keys.push(Placeholder);
            i = i + 1;
        }
        keys
    }

    fn commit(keys: &[Placeholder], msgs: &[Fp61]) -> (r: Fp61) {
        if msgs.len() == 0 {
            Fp61::zero()
        } else {
            msgs[0]
        }
    }

    fn verify(keys: &[Placeholder], msgs: &[Fp61], output: &Fp61) -> (r: bool) {
        Self::commit(keys, msgs).same(output)
    }
}

} // verus!
