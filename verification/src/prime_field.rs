//! The prime field of order 2^61 - 1, as scalars and as a module over itself.
use vstd::prelude::*;
use crate::interfaces::{Field, Module, ToBytes};

verus! {

/// The field's order, the Mersenne prime 2^61 - 1.
pub const MODULUS: u64 = 0x1fff_ffff_ffff_ffff;

/// An element of the field, held as its residue below `MODULUS`.
#[derive(Clone, Copy, Debug, PartialEq, Eq)]
pub struct Fp61 {
    pub value: u64,
}

/// The residue of `a + b`.
pub open spec fn add_mod(a: u64, b: u64) -> u64 {
    ((a % MODULUS + b % MODULUS) % (MODULUS as int)) as u64
}

/// The residue of `a * b`.
pub open spec fn mul_mod(a: u64, b: u64) -> u64 {
    (((a % MODULUS) * (b % MODULUS)) % (MODULUS as int)) as u64
}

/// The residue of `base` raised to `exp`, by repeated squaring.
pub open spec fn pow_mod(base: u64, exp: u64) -> u64
    decreases exp,
{
    if exp == 0 {
        1
    } else {
        let half = pow_mod(base, exp / 2);
        let square = mul_mod(half, half);
        if exp % 2 == 1 {
            mul_mod(square, base)
        } else {
            square
        }
    }
}

/// The number that the first eight bytes spell, least significant first.
pub open spec fn le_u64(bytes: Seq<u8>) -> int {
    bytes[0] + bytes[1] * 0x100 + bytes[2] * 0x1_0000 + bytes[3] * 0x100_0000 + bytes[4]
        * 0x1_0000_0000 + bytes[5] * 0x100_0000_0000 + bytes[6] * 0x1_0000_0000_0000 + bytes[7]
        * 0x100_0000_0000_0000
}

/// The eight bytes of `v`, least significant first.
pub open spec fn le_bytes(v: u64) -> Seq<u8> {
    seq![
        (v % 256) as u8,
        ((v / 0x100) % 256) as u8,
        ((v / 0x1_0000) % 256) as u8,
        ((v / 0x100_0000) % 256) as u8,
        ((v / 0x1_0000_0000) % 256) as u8,
        ((v / 0x100_0000_0000) % 256) as u8,
        ((v / 0x1_0000_0000_0000) % 256) as u8,
        ((v / 0x100_0000_0000_0000) % 256) as u8,
    ]
}

fn add_residues(a: u64, b: u64) -> (r: u64)
    ensures
        r == add_mod(a, b),
        r < MODULUS,
{
    (a % MODULUS + b % MODULUS) % MODULUS
}

fn mul_residues(a: u64, b: u64) -> (r: u64)
    ensures
        r == mul_mod(a, b),
        r < MODULUS,
{
    let x: u128 = (a % MODULUS) as u128;
    let y: u128 = (b % MODULUS) as u128;
    assert(x * y <= 0x1fff_ffff_ffff_ffff * 0x1fff_ffff_ffff_ffff) by (nonlinear_arith)
        requires
            0 <= x <= 0x1fff_ffff_ffff_ffff,
            0 <= y <= 0x1fff_ffff_ffff_ffff,
    ;
    let p: u128 = (x * y) % (MODULUS as u128);
    p as u64
}

fn pow_residues(base: u64, exp: u64) -> (r: u64)
    ensures
        r == pow_mod(base, exp),
        r < MODULUS,
    decreases exp,
{
    if exp == 0 {
        1
    } else {
        let half = pow_residues(base, exp / 2);
        let square = mul_residues(half, half);
        if exp % 2 == 1 {
            mul_residues(square, base)
        } else {
            square
        }
    }
}

impl Fp61 {
    /// The element is held as the residue below `MODULUS`. Every operation
    /// ends in such an element, whatever it is given.
    pub open spec fn is_canonical(self) -> bool {
        self.value < MODULUS
    }

    /// The element with the residue of `v`.
    pub fn new(v: u64) -> (r: Self)
        ensures
            r.value == v % MODULUS,
            r.is_canonical(),
    {
        Fp61 { value: v % MODULUS }
    }

    /// The residue that stands for the element.
    pub fn value(&self) -> (v: u64)
        ensures
            v == self.value,
    {
        self.value
    }
}

impl ToBytes for Fp61 {
    open spec fn encoding(&self) -> Seq<u8> {
        le_bytes(self.value)
    }

    fn write(&self, out: &mut Vec<u8>) {
        let v: u64 = self.value;
        out.push((v % 256) as u8);
        out.push(((v / 0x100) % 256) as u8);
        out.push(((v / 0x1_0000) % 256) as u8);
        out.push(((v / 0x100_0000) % 256) as u8);
        out.push(((v / 0x1_0000_0000) % 256) as u8);
        out.push(((v / 0x100_0000_0000) % 256) as u8);
        out.push(((v / 0x1_0000_0000_0000) % 256) as u8);
        out.push(((v / 0x100_0000_0000_0000) % 256) as u8);
        assert(out@ =~= old(out)@ + le_bytes(v));
    }
}

impl Field for Fp61 {
    open spec fn zero_spec() -> Self {
        Fp61 { value: 0 }
    }

    /// The first eight bytes, least significant first, cut to 61 bits; no
    /// element where fewer than eight bytes are given or the 61 bits are all
    /// set.
    open spec fn from_random_bytes_spec(bytes: Seq<u8>) -> Option<Self> {
        if bytes.len() < 8 {
            None
        } else {
            let v = le_u64(bytes) % 0x2000_0000_0000_0000;
            if v < MODULUS {
                Some(Fp61 { value: v as u64 })
            } else {
                None
            }
        }
    }

    /// The power `MODULUS - 2` of the element, where its product with the
    /// element is one.
    open spec fn inverse_spec(self) -> Option<Self> {
        let candidate = pow_mod(self.value, (MODULUS - 2) as u64);
        if mul_mod(self.value, candidate) == 1 {
            Some(Fp61 { value: candidate })
        } else {
            None
        }
    }

    fn zero() -> (r: Self)
        ensures
            r.is_canonical(),
    {
        Fp61 { value: 0 }
    }

    fn from_random_bytes(bytes: &[u8]) -> (r: Option<Self>)
        ensures
            r matches Some(x) ==> x.is_canonical(),
    {
        if bytes.len() < 8 {
            return None;
        }
        let word: u64 = bytes[0] as u64 + bytes[1] as u64 * 0x100 + bytes[2] as u64 * 0x1_0000
            + bytes[3] as u64 * 0x100_0000 + bytes[4] as u64 * 0x1_0000_0000 + bytes[5] as u64
            * 0x100_0000_0000 + bytes[6] as u64 * 0x1_0000_0000_0000 + bytes[7] as u64
            * 0x100_0000_0000_0000;
        let v: u64 = word % 0x2000_0000_0000_0000;
        if v < MODULUS {
            Some(Fp61 { value: v })
        } else {
            None
        }
    }

    fn inverse(&self) -> (r: Option<Self>)
        ensures
            r matches Some(x) ==> x.is_canonical() && mul_mod(self.value, x.value) == 1,
    {
        let candidate = pow_residues(self.value, MODULUS - 2);
        if mul_residues(self.value, candidate) == 1 {
            Some(Fp61 { value: candidate })
        } else {
            None
        }
    }
}

impl Module<Fp61> for Fp61 {
    open spec fn plus_spec(self, other: Self) -> Self {
        Fp61 { value: add_mod(self.value, other.value) }
    }

    open spec fn scaled_spec(self, c: Fp61) -> Self {
        Fp61 { value: mul_mod(self.value, c.value) }
    }

    fn plus(&self, other: &Self) -> (r: Self)
        ensures
            r.is_canonical(),
    {
        Fp61 { value: add_residues(self.value, other.value) }
    }

    fn scaled(&self, c: &Fp61) -> (r: Self)
        ensures
            r.is_canonical(),
    {
        Fp61 { value: mul_residues(self.value, c.value) }
    }

    fn same(&self, other: &Self) -> (r: bool) {
        self.value == other.value
    }
}

} // verus!
