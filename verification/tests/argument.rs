use ip_proofs::gipa::{Error, GIPAProof, GIPA};
use ip_proofs::hash::Blake2b;
use ip_proofs::instances::{
    IdentityCommitment, LinearCommitment, Placeholder, ScalarInnerProduct,
};
use ip_proofs::interfaces::{
    DoublyHomomorphicCommitment, Field, InnerProduct, Module, RandomSource,
};
use ip_proofs::prime_field::Fp61;
use ip_proofs::rng::SeededRng;

type IP = ScalarInnerProduct;
type SC = LinearCommitment;
type IPC = IdentityCommitment;
type ScalarGIPA = GIPA<IP, SC, SC, IPC, Blake2b>;
type ScalarProof = GIPAProof<IP, SC, SC, IPC, Blake2b>;

const TEST_SIZE: usize = 8;

struct Instance {
    m_a: Vec<Fp61>,
    m_b: Vec<Fp61>,
    t: Fp61,
    ck_a: Vec<Fp61>,
    ck_b: Vec<Fp61>,
    ck_t: Placeholder,
    com_a: Fp61,
    com_b: Fp61,
    com_t: Fp61,
}

fn instance(seed: u64, size: usize) -> Instance {
    let mut rng = SeededRng::seed_from_u64(seed);
    let (ck_a, ck_b, ck_t) = ScalarGIPA::setup(&mut rng, size).unwrap();
    let mut m_a = Vec::new();
    let mut m_b = Vec::new();
    for _ in 0..size {
        m_a.push(Fp61::new(rng.next_u64()));
        m_b.push(Fp61::new(rng.next_u64()));
    }
    let com_a = SC::commit(&ck_a, &m_a);
    let com_b = SC::commit(&ck_b, &m_b);
    let t = IP::inner_product(&m_a, &m_b);
    let com_t = IPC::commit(&vec![ck_t], &vec![t]);
    Instance { m_a, m_b, t, ck_a, ck_b, ck_t, com_a, com_b, com_t }
}

fn prove(i: &Instance) -> Result<ScalarProof, Error> {
    ScalarGIPA::prove(
        (&i.m_a, &i.m_b, &i.t),
        (&i.ck_a, &i.ck_b, &i.ck_t),
        (&i.com_a, &i.com_b, &i.com_t),
    )
}

fn verify(i: &Instance, proof: &ScalarProof) -> Result<bool, Error> {
    ScalarGIPA::verify((&i.ck_a, &i.ck_b, &i.ck_t), (&i.com_a, &i.com_b, &i.com_t), proof)
}

#[test]
fn scalar_inner_product_test() {
    let mut rng = SeededRng::seed_from_u64(0u64);
    let (ck_a, ck_b, ck_t) = ScalarGIPA::setup(&mut rng, TEST_SIZE).unwrap();
    let mut m_a = Vec::new();
    let mut m_b = Vec::new();
    for _ in 0..TEST_SIZE {
        m_a.push(Fp61::new(rng.next_u64()));
        m_b.push(Fp61::new(rng.next_u64()));
    }
    let com_a = SC::commit(&ck_a, &m_a);
    let com_b = SC::commit(&ck_b, &m_b);
    let t = vec![IP::inner_product(&m_a, &m_b)];
    let com_t = IPC::commit(&vec![ck_t.clone()], &t);

    let proof = ScalarGIPA::prove(
        (&m_a, &m_b, &t[0]),
        (&ck_a, &ck_b, &ck_t),
        (&com_a, &com_b, &com_t),
    )
    .unwrap();

    assert!(
        ScalarGIPA::verify((&ck_a, &ck_b, &ck_t), (&com_a, &com_b, &com_t), &proof,).unwrap()
    );
}

#[test]
fn honest_proofs_are_accepted_at_every_length() {
    for (k, size) in [1usize, 2, 4, 8, 16].iter().enumerate() {
        for seed in 0..4u64 {
            let i = instance(seed * 10 + k as u64, *size);
            let proof = prove(&i).unwrap();
            assert_eq!(verify(&i, &proof), Ok(true));
        }
    }
}

#[test]
fn proof_has_one_round_per_halving() {
    for (rounds, size) in [1usize, 2, 4, 8, 16].iter().enumerate() {
        let i = instance(7, *size);
        let ck_t = vec![i.ck_t];
        let (proof, aux) =
            ScalarGIPA::prove_with_aux((&i.m_a, &i.m_b), (&i.ck_a, &i.ck_b, &ck_t)).unwrap();
        assert_eq!(proof.r_commitment_steps.len(), rounds);
        assert_eq!(aux.r_transcript.len(), rounds);
    }
}

#[test]
fn length_one_proof_is_the_messages_themselves() {
    let i = instance(3, 1);
    let ck_t = vec![i.ck_t];
    let (proof, aux) =
        ScalarGIPA::prove_with_aux((&i.m_a, &i.m_b), (&i.ck_a, &i.ck_b, &ck_t)).unwrap();
    assert!(proof.r_commitment_steps.is_empty());
    assert_eq!(proof.r_base, (i.m_a[0], i.m_b[0]));
    assert_eq!(aux.ck_base, (i.ck_a[0], i.ck_b[0]));
}

#[test]
fn proving_twice_gives_the_same_proof() {
    let i = instance(11, TEST_SIZE);
    let first = prove(&i).unwrap();
    let second = prove(&i).unwrap();
    assert_eq!(first.r_commitment_steps, second.r_commitment_steps);
    assert_eq!(first.r_base, second.r_base);
}

#[test]
fn verifier_transcript_equals_prover_transcript() {
    for size in [1usize, 2, 4, 8, 16] {
        let i = instance(5, size);
        let ck_t = vec![i.ck_t];
        let (proof, aux) =
            ScalarGIPA::prove_with_aux((&i.m_a, &i.m_b), (&i.ck_a, &i.ck_b, &ck_t)).unwrap();
        let (_, challenges) = ScalarGIPA::verify_recursive_challenge_transcript(
            (&i.com_a, &i.com_b, &i.com_t),
            &proof,
        )
        .unwrap();
        assert_eq!(challenges, aux.r_transcript);
    }
}

#[test]
fn folded_commitments_open_to_the_base() {
    let i = instance(9, TEST_SIZE);
    let ck_t = vec![i.ck_t];
    let (proof, aux) =
        ScalarGIPA::prove_with_aux((&i.m_a, &i.m_b), (&i.ck_a, &i.ck_b, &ck_t)).unwrap();
    let (com, _) = ScalarGIPA::verify_recursive_challenge_transcript(
        (&i.com_a, &i.com_b, &i.com_t),
        &proof,
    )
    .unwrap();
    assert_eq!(com.0, SC::commit(&[aux.ck_base.0], &[proof.r_base.0]));
    assert_eq!(com.1, SC::commit(&[aux.ck_base.1], &[proof.r_base.1]));
    assert_eq!(com.2, IP::inner_product(&[proof.r_base.0], &[proof.r_base.1]));
}

#[test]
fn first_round_commits_crosswise() {
    let i = instance(21, 2);
    let proof = prove(&i).unwrap();
    assert_eq!(proof.r_commitment_steps.len(), 1);
    let (com_1, com_2) = proof.r_commitment_steps[0];
    assert_eq!(com_1.0, SC::commit(&i.ck_a[..1], &i.m_a[1..]));
    assert_eq!(com_1.1, SC::commit(&i.ck_b[1..], &i.m_b[..1]));
    assert_eq!(com_1.2, IP::inner_product(&i.m_a[1..], &i.m_b[..1]));
    assert_eq!(com_2.0, SC::commit(&i.ck_a[1..], &i.m_a[..1]));
    assert_eq!(com_2.1, SC::commit(&i.ck_b[..1], &i.m_b[1..]));
    assert_eq!(com_2.2, IP::inner_product(&i.m_a[..1], &i.m_b[1..]));
}

#[test]
fn rounds_are_stored_last_round_first() {
    let i = instance(22, 4);
    let proof = prove(&i).unwrap();
    assert_eq!(proof.r_commitment_steps.len(), 2);
    let (com_1, com_2) = proof.r_commitment_steps[1];
    assert_eq!(com_1.0, SC::commit(&i.ck_a[..2], &i.m_a[2..]));
    assert_eq!(com_2.0, SC::commit(&i.ck_a[2..], &i.m_a[..2]));
    assert_eq!(com_1.1, SC::commit(&i.ck_b[2..], &i.m_b[..2]));
    assert_eq!(com_2.1, SC::commit(&i.ck_b[..2], &i.m_b[2..]));
}

#[test]
fn flipped_bit_in_base_is_rejected() {
    let i = instance(0, TEST_SIZE);
    let mut proof = prove(&i).unwrap();
    assert_eq!(verify(&i, &proof), Ok(true));
    proof.r_base.0 = Fp61::new(proof.r_base.0.value() ^ 1);
    assert_eq!(verify(&i, &proof), Ok(false));
}

#[test]
fn perturbed_proofs_and_commitments_are_rejected() {
    let i = instance(13, TEST_SIZE);
    let proof = prove(&i).unwrap();
    for round in 0..proof.r_commitment_steps.len() {
        for part in 0..6 {
            let mut bad = proof.clone();
            let step = &mut bad.r_commitment_steps[round];
            match part {
                0 => step.0 .0 = Fp61::new(step.0 .0.value() ^ 1),
                1 => step.0 .1 = Fp61::new(step.0 .1.value() ^ 1),
                2 => step.0 .2 = Fp61::new(step.0 .2.value() ^ 1),
                3 => step.1 .0 = Fp61::new(step.1 .0.value() ^ 1),
                4 => step.1 .1 = Fp61::new(step.1 .1.value() ^ 1),
                _ => step.1 .2 = Fp61::new(step.1 .2.value() ^ 1),
            }
            assert_ne!(verify(&i, &bad), Ok(true));
        }
    }
    let mut bad = proof.clone();
    bad.r_base.1 = Fp61::new(bad.r_base.1.value() ^ 1);
    assert_eq!(verify(&i, &bad), Ok(false));

    let mut other = instance(13, TEST_SIZE);
    other.com_a = Fp61::new(other.com_a.value() ^ 1);
    assert_eq!(verify(&other, &proof), Ok(false));
    let mut other = instance(13, TEST_SIZE);
    other.com_b = Fp61::new(other.com_b.value() ^ 1);
    assert_eq!(verify(&other, &proof), Ok(false));
    let mut other = instance(13, TEST_SIZE);
    other.com_t = Fp61::new(other.com_t.value() ^ 1);
    assert_eq!(verify(&other, &proof), Ok(false));
}

#[test]
fn prove_rejects_length_six() {
    let i = instance(1, 6);
    assert_eq!(prove(&i).err(), Some(Error::MessageLengthInvalid(6, 6)));
}

#[test]
fn prove_rejects_unequal_lengths() {
    let mut i = instance(1, 8);
    i.m_b.pop();
    assert_eq!(prove(&i).err(), Some(Error::MessageLengthInvalid(8, 7)));
}

#[test]
fn prove_rejects_empty_vectors() {
    let i = instance(1, 0);
    assert_eq!(prove(&i).err(), Some(Error::MessageLengthInvalid(0, 0)));
}

#[test]
fn verify_rejects_length_six() {
    let i = instance(1, 8);
    let proof = prove(&i).unwrap();
    let six = instance(1, 6);
    assert_eq!(verify(&six, &proof), Err(Error::MessageLengthInvalid(6, 6)));
}

#[test]
fn verify_rejects_unequal_key_lengths() {
    let mut i = instance(1, 8);
    let proof = prove(&i).unwrap();
    i.ck_b.truncate(4);
    assert_eq!(verify(&i, &proof), Err(Error::MessageLengthInvalid(8, 4)));
}

#[test]
fn prove_rejects_wrong_product() {
    let mut i = instance(2, TEST_SIZE);
    i.t = Fp61::new(i.t.value() + 1);
    assert_eq!(prove(&i).err(), Some(Error::InnerProductInvalid));
}

#[test]
fn prove_rejects_commitments_that_do_not_open() {
    let mut i = instance(2, TEST_SIZE);
    i.com_a = Fp61::new(i.com_a.value() + 1);
    assert_eq!(prove(&i).err(), Some(Error::InnerProductInvalid));
    let mut i = instance(2, TEST_SIZE);
    i.com_b = Fp61::new(i.com_b.value() + 1);
    assert_eq!(prove(&i).err(), Some(Error::InnerProductInvalid));
    let mut i = instance(2, TEST_SIZE);
    i.com_t = Fp61::new(i.com_t.value() + 1);
    assert_eq!(prove(&i).err(), Some(Error::InnerProductInvalid));
}

#[test]
fn prove_rejects_too_few_keys() {
    let mut i = instance(2, TEST_SIZE);
    i.ck_a.truncate(4);
    assert_eq!(prove(&i).err(), Some(Error::CommitmentError));
}

#[test]
fn verify_rejects_a_proof_of_another_length() {
    let i = instance(4, 8);
    let proof = prove(&i).unwrap();
    let j = instance(4, 4);
    assert_eq!(verify(&j, &proof), Err(Error::CommitmentError));
    let k = instance(4, 16);
    assert_eq!(verify(&k, &proof), Err(Error::CommitmentError));
}

#[test]
fn cloned_proof_is_equal_and_verifies() {
    let i = instance(6, TEST_SIZE);
    let proof = prove(&i).unwrap();
    let copy = proof.clone();
    assert_eq!(copy.r_commitment_steps, proof.r_commitment_steps);
    assert_eq!(copy.r_base, proof.r_base);
    assert_eq!(verify(&i, &copy), Ok(true));
}

#[test]
fn setup_gives_the_lengths_asked_for() {
    let mut rng = SeededRng::seed_from_u64(42);
    let (ck_a, ck_b, _ck_t) = ScalarGIPA::setup(&mut rng, 16).unwrap();
    assert_eq!(ck_a.len(), 16);
    assert_eq!(ck_b.len(), 16);
    assert_ne!(ck_a, ck_b);
}

#[test]
fn seeded_generator_repeats_for_one_seed() {
    let mut first = SeededRng::seed_from_u64(1);
    let mut again = SeededRng::seed_from_u64(1);
    let mut other = SeededRng::seed_from_u64(2);
    let a: Vec<u64> = (0..4).map(|_| first.next_u64()).collect();
    let b: Vec<u64> = (0..4).map(|_| again.next_u64()).collect();
    let c: Vec<u64> = (0..4).map(|_| other.next_u64()).collect();
    assert_eq!(a, b);
    assert_ne!(a, c);
    assert_ne!(a[0], a[1]);
}

#[test]
fn cloned_by_product_is_equal() {
    let i = instance(6, TEST_SIZE);
    let ck_t = vec![i.ck_t];
    let (_, aux) =
        ScalarGIPA::prove_with_aux((&i.m_a, &i.m_b), (&i.ck_a, &i.ck_b, &ck_t)).unwrap();
    let copy = aux.clone();
    assert_eq!(copy.r_transcript, aux.r_transcript);
    assert_eq!(copy.ck_base, aux.ck_base);
}

#[test]
fn by_product_holds_the_folded_keys() {
    let i = instance(8, 2);
    let ck_t = vec![i.ck_t];
    let (proof, aux) =
        ScalarGIPA::prove_with_aux((&i.m_a, &i.m_b), (&i.ck_a, &i.ck_b, &ck_t)).unwrap();
    let c = aux.r_transcript[0];
    let c_inv = c.inverse().unwrap();
    assert_eq!(proof.r_base.0, i.m_a[1].scaled(&c).plus(&i.m_a[0]));
    assert_eq!(proof.r_base.1, i.m_b[1].scaled(&c_inv).plus(&i.m_b[0]));
    assert_eq!(aux.ck_base.0, i.ck_a[1].scaled(&c_inv).plus(&i.ck_a[0]));
    assert_eq!(aux.ck_base.1, i.ck_b[1].scaled(&c).plus(&i.ck_b[0]));
}

struct Counting {
    next: u64,
}

impl RandomSource for Counting {
    fn next_u64(&mut self) -> u64 {
        self.next += 1;
        self.next
    }
}

#[test]
fn setup_draws_left_keys_then_right_keys() {
    let mut rng = Counting { next: u64::MAX - 3 };
    let (ck_a, ck_b, ck_t) = ScalarGIPA::setup(&mut rng, 2).unwrap();
    assert_eq!(ck_a, vec![Fp61::new(u64::MAX - 2), Fp61::new(u64::MAX - 1)]);
    assert_eq!(ck_a[0].value(), 5);
    assert_eq!(ck_b, vec![Fp61::new(u64::MAX), Fp61::new(0)]);
    assert_eq!(ck_t, Placeholder);
    assert_eq!(rng.next, 0);
}
