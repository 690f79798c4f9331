use ip_proofs::fold::{
    check_power_of_two, copied, fold_commitment, fold_halves, halvings, reversed,
};
use ip_proofs::hash::Blake2b;
use ip_proofs::instances::{dot, IdentityCommitment, LinearCommitment, Placeholder};
use ip_proofs::interfaces::{Digest, DoublyHomomorphicCommitment, Field, Module, ToBytes};
use ip_proofs::prime_field::{Fp61, MODULUS};
use ip_proofs::transcript::{challenge_from_digest, hash_input, next_challenge, write_counter};

fn f(v: u64) -> Fp61 {
    Fp61::new(v)
}

#[test]
fn powers_of_two_are_recognised() {
    for n in [1usize, 2, 4, 8, 16, 1024, 1 << 40] {
        assert!(check_power_of_two(n));
    }
    for n in [0usize, 3, 5, 6, 7, 12, 1023, (1 << 40) + 1] {
        assert!(!check_power_of_two(n));
    }
}

#[test]
fn halvings_is_the_binary_logarithm() {
    assert_eq!(halvings(0), 0);
    assert_eq!(halvings(1), 0);
    assert_eq!(halvings(2), 1);
    assert_eq!(halvings(3), 1);
    assert_eq!(halvings(8), 3);
    assert_eq!(halvings(16), 4);
    assert_eq!(halvings(usize::MAX), 63);
}

#[test]
fn field_addition_wraps_at_the_modulus() {
    assert_eq!(MODULUS, (1u64 << 61) - 1);
    assert_eq!(f(MODULUS - 1).plus(&f(2)), f(1));
    assert_eq!(f(3).plus(&f(4)).value(), 7);
    assert_eq!(f(MODULUS).value(), 0);
    assert_eq!(f(u64::MAX).value(), 7);
}

#[test]
fn field_multiplication_reduces() {
    assert_eq!(f(1 << 60).scaled(&f(4)).value(), 2);
    assert_eq!(f(6).scaled(&f(7)).value(), 42);
    assert_eq!(f(MODULUS - 1).scaled(&f(MODULUS - 1)).value(), 1);
}

#[test]
fn inverse_multiplies_to_one() {
    assert_eq!(f(0).inverse(), None);
    assert_eq!(f(1).inverse(), Some(f(1)));
    assert_eq!(f(2).inverse(), Some(f(1 << 60)));
    for v in [3u64, 5, 12345, MODULUS - 1, 0xdead_beef] {
        let inv = f(v).inverse().unwrap();
        assert_eq!(f(v).scaled(&inv), f(1));
    }
}

#[test]
fn scalar_from_bytes_takes_61_bits_least_significant_first() {
    assert_eq!(Fp61::from_random_bytes(&[1, 0, 0, 0, 0, 0, 0, 0]), Some(f(1)));
    assert_eq!(Fp61::from_random_bytes(&[2, 1, 0, 0, 0, 0, 0, 0xe0, 9, 9]), Some(f(258)));
    assert_eq!(Fp61::from_random_bytes(&[0xff; 8]), None);
    assert_eq!(Fp61::from_random_bytes(&[0xff, 0xff, 0xff, 0xff, 0xff, 0xff, 0xff, 0x1f]), None);
    assert_eq!(
        Fp61::from_random_bytes(&[0xfe, 0xff, 0xff, 0xff, 0xff, 0xff, 0xff, 0x1f]),
        Some(f(MODULUS - 1))
    );
    assert_eq!(Fp61::from_random_bytes(&[1, 2, 3, 4, 5, 6, 7]), None);
    assert_eq!(Fp61::zero(), f(0));
}

#[test]
fn scalar_encoding_is_little_endian() {
    let mut out = vec![9u8];
    f(0x0102_0304_0506_0708).write(&mut out);
    assert_eq!(out, vec![9, 8, 7, 6, 5, 4, 3, 2, 1]);
}

#[test]
fn counter_is_written_big_endian() {
    for c in [0u64, 1, 255, 256, 0x0102_0304_0506_0708, u64::MAX] {
        let mut out = vec![7u8];
        write_counter(c, &mut out);
        assert_eq!(&out[..1], &[7u8]);
        assert_eq!(&out[1..], &c.to_be_bytes()[..]);
    }
}

#[test]
fn hash_input_is_counter_marker_then_commitments() {
    let out = hash_input(3, &f(1), &(f(2), f(3), f(4)), &(f(5), f(6), f(7)));
    let mut expected = vec![0u8, 0, 0, 0, 0, 0, 0, 3];
    for v in 1u8..=7 {
        expected.extend_from_slice(&[v, 0, 0, 0, 0, 0, 0, 0]);
    }
    assert_eq!(out, expected);
}

#[test]
fn digest_is_blake2b_512() {
    let out = Blake2b::digest(b"");
    assert_eq!(out.len(), 64);
    assert_eq!(&out[..4], &[0x78, 0x6a, 0x02, 0xf7]);
    let direct = <blake2::Blake2b512 as blake2::Digest>::digest(b"abc").to_vec();
    assert_eq!(Blake2b::digest(b"abc"), direct);
    assert_ne!(Blake2b::digest(b"abc"), b"abc".to_vec());
}

#[test]
fn challenge_comes_with_its_inverse() {
    let got: Option<(Fp61, Fp61)> = challenge_from_digest(&[2, 0, 0, 0, 0, 0, 0, 0]);
    assert_eq!(got, Some((f(2), f(1 << 60))));
    let none: Option<(Fp61, Fp61)> = challenge_from_digest(&[0; 8]);
    assert_eq!(none, None);
    let short: Option<(Fp61, Fp61)> = challenge_from_digest(&[1, 2, 3]);
    assert_eq!(short, None);
}

#[test]
fn next_challenge_is_the_first_accepted_digest() {
    let com_1 = (f(2), f(3), f(4));
    let com_2 = (f(5), f(6), f(7));
    let got = next_challenge::<Fp61, Fp61, Fp61, Fp61, Blake2b>(&f(0), &com_1, &com_2).unwrap();
    assert_eq!(got.0.scaled(&got.1), f(1));
    let mut counter = 0u64;
    let expected = loop {
        let digest = Blake2b::digest(&hash_input(counter, &f(0), &com_1, &com_2));
        if let Some(pair) = challenge_from_digest::<Fp61>(&digest) {
            break pair;
        }
        counter += 1;
    };
    assert_eq!(got, expected);
    let other = next_challenge::<Fp61, Fp61, Fp61, Fp61, Blake2b>(&f(1), &com_1, &com_2).unwrap();
    assert_ne!(got, other);
}

#[test]
fn fold_halves_scales_the_upper_half_onto_the_lower() {
    let v = vec![f(1), f(2), f(10), f(20)];
    assert_eq!(fold_halves(&v, &f(3)), vec![f(31), f(62)]);
    let odd = vec![f(1), f(2), f(3)];
    assert_eq!(fold_halves(&odd, &f(2)), vec![f(5)]);
    let one = vec![f(1)];
    assert_eq!(fold_halves(&one, &f(2)), Vec::<Fp61>::new());
}

#[test]
fn fold_commitment_is_scaled_sum() {
    let got = fold_commitment(&f(100), &f(2), &f(5), &f(3), &f(7));
    assert_eq!(got, f(3 * 2 + 100 + 7 * 5));
}

#[test]
fn reversed_and_copied() {
    assert_eq!(reversed(&vec![1u8, 2, 3]), vec![3u8, 2, 1]);
    assert_eq!(reversed(&Vec::<u8>::new()), Vec::<u8>::new());
    assert_eq!(copied(&[4u8, 5, 6]), vec![4u8, 5, 6]);
}

#[test]
fn dot_product_and_commitments() {
    let a = vec![f(1), f(2), f(3)];
    let b = vec![f(4), f(5), f(6)];
    assert_eq!(dot(&a, &b), f(32));
    assert_eq!(dot(&[], &[]), f(0));
    assert_eq!(LinearCommitment::commit(&a, &b), f(32));
    assert!(LinearCommitment::verify(&a, &b, &f(32)));
    assert!(!LinearCommitment::verify(&a, &b, &f(33)));
    assert_eq!(IdentityCommitment::commit(&[Placeholder], &[f(9)]), f(9));
    assert_eq!(IdentityCommitment::commit(&[], &[]), f(0));
    assert!(IdentityCommitment::verify(&[Placeholder], &[f(9)], &f(9)));
    assert!(!IdentityCommitment::verify(&[Placeholder], &[f(9)], &f(8)));
}
