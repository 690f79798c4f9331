//! Halving: the lengths the argument accepts, and the pairwise fold of a
//! vector's upper half onto its lower half.
use vstd::prelude::*;
use crate::interfaces::Module;

verus! {

/// `n` is 1, 2, 4, 8, ...
pub open spec fn is_power_of_two(n: nat) -> bool
    decreases n,
{
    n == 1 || (n > 1 && n % 2 == 0 && is_power_of_two(n / 2))
}

/// How often `n` can be halved before it reaches one.
pub open spec fn log2(n: nat) -> nat
    decreases n,
{
    if n <= 1 {
        0
    } else {
        1 + log2(n / 2)
    }
}

/// The sequence in the opposite order.
pub open spec fn reversed_spec<T>(s: Seq<T>) -> Seq<T> {
    Seq::new(s.len(), |i: int| s[s.len() - 1 - i])
}

/// The upper half multiplied by `c` and added onto the lower half, entry by
/// entry: entry `i` is `c * v[h + i] + v[i]`, with `h` half the length.
pub open spec fn fold_halves_spec<S, E: Module<S>>(v: Seq<E>, c: S) -> Seq<E> {
    Seq::new(v.len() / 2, |i: int| v[v.len() / 2 + i].scaled_spec(c).plus_spec(v[i]))
}

/// A commitment folded with the round's two cross-commitments:
/// `c * cross_1 + com + c_inv * cross_2`.
pub open spec fn fold_commitment_spec<S, E: Module<S>>(
    com: E,
    cross_1: E,
    cross_2: E,
    c: S,
    c_inv: S,
) -> E {
    cross_1.scaled_spec(c).plus_spec(com).plus_spec(cross_2.scaled_spec(c_inv))
}

/// Whether `n` is a power of two.
pub fn check_power_of_two(n: usize) -> (r: bool)
    ensures
        r == is_power_of_two(n as nat),
{
    if n == 0 {
        return false;
    }
    let mut m: usize = n;
    while m % 2 == 0
        invariant
            m >= 1,
            is_power_of_two(m as nat) == is_power_of_two(n as nat),
        decreases m,
    {
        m = m / 2;
    }
    m == 1
}

/// How often `n` can be halved before it reaches one.
pub fn halvings(n: usize) -> (r: usize)
    ensures
        r == log2(n as nat),
{
    let mut m: usize = n;
    let mut r: usize = 0;
    while m > 1
        invariant
            r + log2(m as nat) == log2(n as nat),
            r + m <= n || (m == n && r == 0),
        decreases m,
    {
        m = m / 2;
        r = r + 1;
    }
    r
}

/// Folds the upper half of `v`, multiplied by `c`, onto the lower half.
pub fn fold_halves<S, E: Module<S>>(v: &[E], c: &S) -> (r: Vec<E>)
    ensures
        r@ == fold_halves_spec(v@, *c),
{
    let h: usize = v.len() / 2;
    let mut r: Vec<E> = Vec::new();
    let mut i: usize = 0;
    while i < h
        invariant
            h == v@.len() / 2,
            h + h <= v.len(),
            i <= h,
            r@.len() == i,
            forall|k: int| 0 <= k < i ==> r@[k] == fold_halves_spec(v@, *c)[k],
        decreases h - i,
    {
        let e = v[h + i].scaled(c).plus(&v[i]);
        r.push(e);
        i = i + 1;
    }
    assert(r@ =~= fold_halves_spec(v@, *c));
    r
}

/// Folds a commitment with a round's two cross-commitments.
pub fn fold_commitment<S, E: Module<S>>(com: &E, cross_1: &E, cross_2: &E, c: &S, c_inv: &S) -> (r: E)
    ensures
        r == fold_commitment_spec(*com, *cross_1, *cross_2, *c, *c_inv),
{
    cross_1.scaled(c).plus(com).plus(&cross_2.scaled(c_inv))
}

/// A copy of `v` in the opposite order.
pub fn reversed<T: Copy>(v: &Vec<T>) -> (r: Vec<T>)
    ensures
        r@ == reversed_spec(v@),
{
    let n: usize = v.len();
    let mut r: Vec<T> = Vec::new();
    let mut i: usize = 0;
    while i < n
        invariant
            n == v@.len(),
            i <= n,
            r@.len() == i,
            forall|k: int| 0 <= k < i ==> r@[k] == v@[n - 1 - k],
        decreases n - i,
    {
        r.push(v[n - 1 - i]);
        i = i + 1;
    }
    assert(r@ =~= reversed_spec(v@));
    r
}

/// A vector with the entries of `v`.
pub fn copied<T: Copy>(v: &[T]) -> (r: Vec<T>)
    ensures
        r@ == v@,
{
    let n: usize = v.len();
    let mut r: Vec<T> = Vec::new();
    let mut i: usize = 0;
    while i < n
        invariant
            n == v@.len(),
            i <= n,
            r@.len() == i,
            forall|k: int| 0 <= k < i ==> r@[k] == v@[k],
        decreases n - i,
    {
        r.push(v[i]);
        i = i + 1;
    }
    assert(r@ =~= v@);
    r
}

} // verus!
