//! The recursion engine: the prover's folding loop, the verifier's mirror
//! loop, and the challenge transcript that both derive.
use vstd::prelude::*;
use core::marker::PhantomData;
use crate::fold::{
    check_power_of_two, copied, fold_commitment, fold_commitment_spec, fold_halves,
    fold_halves_spec, halvings, is_power_of_two, log2, reversed, reversed_spec,
};
use crate::interfaces::{
    Digest, DoublyHomomorphicCommitment, Field, InnerProduct, Module, RandomSource,
};
use crate::transcript::{next_challenge, next_challenge_spec};

verus! {

/// Why a proof was not produced, or a verification not carried out.
#[derive(Clone, Copy, Debug, PartialEq, Eq)]
pub enum Error {
    /// The claimed inner product is not that of the messages, or one of the
    /// three commitments does not open to what was given.
    InnerProductInvalid,
    /// The two vectors, whose lengths are given, are not of one length that
    /// is a power of two.
    MessageLengthInvalid(usize, usize),
    /// A commitment would have to be taken under keys whose number is not the
    /// number of messages.
    CommitmentError,
    /// No counter value yields an invertible challenge for some round.
    ChallengeNotFound,
}

/// The argument for an inner product `IP`, commitments `LMC`, `RMC` and `IPC`
/// to the left messages, the right messages and the product, and a hash `D`.
pub struct GIPA<IP, LMC, RMC, IPC, D> {
    _inner_product: PhantomData<IP>,
    _left_commitment: PhantomData<LMC>,
    _right_commitment: PhantomData<RMC>,
    _inner_product_commitment: PhantomData<IPC>,
    _digest: PhantomData<D>,
}

/// The prover's output: each round's two cross-commitments, last round
/// first, and the two messages that the vectors were folded down to.
pub struct GIPAProof<
    IP,
    LMC: DoublyHomomorphicCommitment,
    RMC: DoublyHomomorphicCommitment,
    IPC: DoublyHomomorphicCommitment,
    D,
> {
    pub r_commitment_steps: Vec<
        ((LMC::Output, RMC::Output, IPC::Output), (LMC::Output, RMC::Output, IPC::Output)),
    >,
    pub r_base: (LMC::Message, RMC::Message),
    pub _gipa: PhantomData<GIPA<IP, LMC, RMC, IPC, D>>,
}

/// What proving leaves besides the proof: the challenges, last round first,
/// and the two keys that the key vectors were folded down to.
pub struct GIPAAux<
    IP,
    LMC: DoublyHomomorphicCommitment,
    RMC: DoublyHomomorphicCommitment,
    IPC: DoublyHomomorphicCommitment,
    D,
> {
    pub r_transcript: Vec<LMC::Scalar>,
    pub ck_base: (LMC::Key, RMC::Key),
    pub _gipa: PhantomData<GIPA<IP, LMC, RMC, IPC, D>>,
}

/// A proof as a mathematical value.
pub ghost struct ProofView<
    LMC: DoublyHomomorphicCommitment,
    RMC: DoublyHomomorphicCommitment,
    IPC: DoublyHomomorphicCommitment,
> {
    pub r_commitment_steps: Seq<
        ((LMC::Output, RMC::Output, IPC::Output), (LMC::Output, RMC::Output, IPC::Output)),
    >,
    pub r_base: (LMC::Message, RMC::Message),
}

/// The prover's by-product as a mathematical value.
pub ghost struct AuxView<LMC: DoublyHomomorphicCommitment, RMC: DoublyHomomorphicCommitment> {
    pub r_transcript: Seq<LMC::Scalar>,
    pub ck_base: (LMC::Key, RMC::Key),
}

impl<
    IP,
    LMC: DoublyHomomorphicCommitment,
    RMC: DoublyHomomorphicCommitment,
    IPC: DoublyHomomorphicCommitment,
    D,
> View for GIPAProof<IP, LMC, RMC, IPC, D> {
    type V = ProofView<LMC, RMC, IPC>;

    open spec fn view(&self) -> ProofView<LMC, RMC, IPC> {
        ProofView { r_commitment_steps: self.r_commitment_steps@, r_base: self.r_base }
    }
}

impl<
    IP,
    LMC: DoublyHomomorphicCommitment,
    RMC: DoublyHomomorphicCommitment,
    IPC: DoublyHomomorphicCommitment,
    D,
> View for GIPAAux<IP, LMC, RMC, IPC, D> {
    type V = AuxView<LMC, RMC>;

    open spec fn view(&self) -> AuxView<LMC, RMC> {
        AuxView { r_transcript: self.r_transcript@, ck_base: self.ck_base }
    }
}

impl<
    IP,
    LMC: DoublyHomomorphicCommitment,
    RMC: DoublyHomomorphicCommitment,
    IPC: DoublyHomomorphicCommitment,
    D,
> Clone for GIPAProof<IP, LMC, RMC, IPC, D> {
    fn clone(&self) -> (r: Self)
        ensures
            r@ == self@,
    {
        GIPAProof {
            r_commitment_steps: copied(self.r_commitment_steps.as_slice()),
            r_base: self.r_base,
            _gipa: PhantomData,
        }
    }
}


impl<
    IP,
    LMC: DoublyHomomorphicCommitment,
    RMC: DoublyHomomorphicCommitment,
    IPC: DoublyHomomorphicCommitment,
    D,
> Clone for GIPAAux<IP, LMC, RMC, IPC, D> {
    fn clone(&self) -> (r: Self)
        ensures
            r@ == self@,
    {
        GIPAAux {
            r_transcript: copied(self.r_transcript.as_slice()),
            ck_base: self.ck_base,
            _gipa: PhantomData,
        }
    }
}

impl<IP, LMC, RMC, IPC, D> GIPA<IP, LMC, RMC, IPC, D> where
    D: Digest,
    IP: InnerProduct<LeftMessage = LMC::Message, RightMessage = RMC::Message, Output = IPC::Message>,
    LMC: DoublyHomomorphicCommitment,
    RMC: DoublyHomomorphicCommitment<Scalar = LMC::Scalar>,
    IPC: DoublyHomomorphicCommitment<Scalar = LMC::Scalar>,
{
    /// A round's two cross-commitments. The first commits the upper left
    /// messages under the lower left keys and the lower right messages under
    /// the upper right keys; the second takes the opposite halves. Each ends
    /// with the commitment to the inner product of its two message halves.
    pub open spec fn cross_commitments_spec(
        m_a: Seq<LMC::Message>,
        m_b: Seq<RMC::Message>,
        ck_a: Seq<LMC::Key>,
        ck_b: Seq<RMC::Key>,
        ck_t: Seq<IPC::Key>,
    ) -> ((LMC::Output, RMC::Output, IPC::Output), (LMC::Output, RMC::Output, IPC::Output)) {
        let h = (m_a.len() / 2) as int;
        let m_a_1 = m_a.subrange(h, m_a.len() as int);
        let m_a_2 = m_a.subrange(0, h);
        let ck_a_1 = ck_a.subrange(0, h);
        let ck_a_2 = ck_a.subrange(h, ck_a.len() as int);
        let m_b_1 = m_b.subrange(0, h);
        let m_b_2 = m_b.subrange(h, m_b.len() as int);
        let ck_b_1 = ck_b.subrange(h, ck_b.len() as int);
        let ck_b_2 = ck_b.subrange(0, h);
        (
            (
                LMC::commit_spec(ck_a_1, m_a_1),
                RMC::commit_spec(ck_b_1, m_b_1),
                IPC::commit_spec(ck_t, seq![IP::inner_product_spec(m_a_1, m_b_1)]),
            ),
            (
                LMC::commit_spec(ck_a_2, m_a_2),
                RMC::commit_spec(ck_b_2, m_b_2),
                IPC::commit_spec(ck_t, seq![IP::inner_product_spec(m_a_2, m_b_2)]),
            ),
        )
    }

    /// The prover from a given round on. `prev` is the previous challenge,
    /// `steps` and `transcript` hold the earlier rounds, first round first.
    /// At length one the messages and keys are the base, and both lists are
    /// stored in the opposite order. `None` where a round finds no challenge.
    pub open spec fn prove_rounds_spec(
        m_a: Seq<LMC::Message>,
        m_b: Seq<RMC::Message>,
        ck_a: Seq<LMC::Key>,
        ck_b: Seq<RMC::Key>,
        ck_t: Seq<IPC::Key>,
        prev: LMC::Scalar,
        steps: Seq<
            ((LMC::Output, RMC::Output, IPC::Output), (LMC::Output, RMC::Output, IPC::Output)),
        >,
        transcript: Seq<LMC::Scalar>,
    ) -> Option<(ProofView<LMC, RMC, IPC>, AuxView<LMC, RMC>)>
        decreases m_a.len(),
    {
        if m_a.len() <= 1 {
            Some(
                (
                    ProofView {
                        r_commitment_steps: reversed_spec(steps),
                        r_base: (m_a[0], m_b[0]),
                    },
                    AuxView { r_transcript: reversed_spec(transcript), ck_base: (ck_a[0], ck_b[0]) },
                ),
            )
        } else {
            let round = Self::cross_commitments_spec(m_a, m_b, ck_a, ck_b, ck_t);
            match next_challenge_spec::<LMC::Scalar, LMC::Output, RMC::Output, IPC::Output, D>(
                prev,
                round.0,
                round.1,
            ) {
                None => None,
                Some(pair) => Self::prove_rounds_spec(
                    fold_halves_spec(m_a, pair.0),
                    fold_halves_spec(m_b, pair.1),
                    fold_halves_spec(ck_a, pair.1),
                    fold_halves_spec(ck_b, pair.0),
                    ck_t,
                    pair.0,
                    steps.push(round),
                    transcript.push(pair.0),
                ),
            }
        }
    }

    /// The proof and by-product for the given messages and keys, with no
    /// check of any opening.
    pub open spec fn prove_with_aux_spec(
        m_a: Seq<LMC::Message>,
        m_b: Seq<RMC::Message>,
        ck_a: Seq<LMC::Key>,
        ck_b: Seq<RMC::Key>,
        ck_t: Seq<IPC::Key>,
    ) -> Option<(ProofView<LMC, RMC, IPC>, AuxView<LMC, RMC>)> {
        Self::prove_rounds_spec(
            m_a,
            m_b,
            ck_a,
            ck_b,
            ck_t,
            LMC::Scalar::zero_spec(),
            Seq::empty(),
            Seq::empty(),
        )
    }

    /// The three commitments open to the messages and to the claimed product.
    pub open spec fn openings_hold(
        m_a: Seq<LMC::Message>,
        m_b: Seq<RMC::Message>,
        t: IPC::Message,
        ck_a: Seq<LMC::Key>,
        ck_b: Seq<RMC::Key>,
        ck_t: IPC::Key,
        com: (LMC::Output, RMC::Output, IPC::Output),
    ) -> bool {
        &&& LMC::commit_spec(ck_a, m_a) == com.0
        &&& RMC::commit_spec(ck_b, m_b) == com.1
        &&& IPC::commit_spec(seq![ck_t], seq![t]) == com.2
    }

    /// What `prove` returns: the checks in the order in which they are made,
    /// then the proof.
    pub open spec fn prove_spec(
        m_a: Seq<LMC::Message>,
        m_b: Seq<RMC::Message>,
        t: IPC::Message,
        ck_a: Seq<LMC::Key>,
        ck_b: Seq<RMC::Key>,
        ck_t: IPC::Key,
        com: (LMC::Output, RMC::Output, IPC::Output),
    ) -> Result<ProofView<LMC, RMC, IPC>, Error> {
        if m_a.len() != m_b.len() {
            Err(Error::MessageLengthInvalid(m_a.len() as usize, m_b.len() as usize))
        } else if IP::inner_product_spec(m_a, m_b) != t {
            Err(Error::InnerProductInvalid)
        } else if !is_power_of_two(m_a.len()) {
            Err(Error::MessageLengthInvalid(m_a.len() as usize, m_b.len() as usize))
        } else if ck_a.len() != m_a.len() || ck_b.len() != m_b.len() {
            Err(Error::CommitmentError)
        } else if !Self::openings_hold(m_a, m_b, t, ck_a, ck_b, ck_t, com) {
            Err(Error::InnerProductInvalid)
        } else {
            match Self::prove_with_aux_spec(m_a, m_b, ck_a, ck_b, seq![ck_t]) {
                Some(pair) => Ok(pair.0),
                None => Err(Error::ChallengeNotFound),
            }
        }
    }

    /// The three commitments folded with one round's cross-commitments.
    pub open spec fn fold_commitments_spec(
        com: (LMC::Output, RMC::Output, IPC::Output),
        com_1: (LMC::Output, RMC::Output, IPC::Output),
        com_2: (LMC::Output, RMC::Output, IPC::Output),
        c: LMC::Scalar,
        c_inv: LMC::Scalar,
    ) -> (LMC::Output, RMC::Output, IPC::Output) {
        (
            fold_commitment_spec(com.0, com_1.0, com_2.0, c, c_inv),
            fold_commitment_spec(com.1, com_1.1, com_2.1, c, c_inv),
            fold_commitment_spec(com.2, com_1.2, com_2.2, c, c_inv),
        )
    }

    /// The commitments folded through the rounds numbered `j` and up of
    /// `rounds` (first round first), with the challenges appended to
    /// `transcript`. `None` where a round finds no challenge.
    pub open spec fn challenge_rounds_spec(
        rounds: Seq<
            ((LMC::Output, RMC::Output, IPC::Output), (LMC::Output, RMC::Output, IPC::Output)),
        >,
        j: nat,
        com: (LMC::Output, RMC::Output, IPC::Output),
        prev: LMC::Scalar,
        transcript: Seq<LMC::Scalar>,
    ) -> Option<((LMC::Output, RMC::Output, IPC::Output), Seq<LMC::Scalar>)>
        decreases rounds.len() - j,
    {
        if j >= rounds.len() {
            Some((com, transcript))
        } else {
            match next_challenge_spec::<LMC::Scalar, LMC::Output, RMC::Output, IPC::Output, D>(
                prev,
                rounds[j as int].0,
                rounds[j as int].1,
            ) {
                None => None,
                Some(pair) => Self::challenge_rounds_spec(
                    rounds,
                    j + 1,
                    Self::fold_commitments_spec(
                        com,
                        rounds[j as int].0,
                        rounds[j as int].1,
                        pair.0,
                        pair.1,
                    ),
                    pair.0,
                    transcript.push(pair.0),
                ),
            }
        }
    }

    /// The folded commitments and the challenges, last round first, that a
    /// proof's rounds give.
    pub open spec fn verify_recursive_challenge_transcript_spec(
        com: (LMC::Output, RMC::Output, IPC::Output),
        proof: ProofView<LMC, RMC, IPC>,
    ) -> Option<((LMC::Output, RMC::Output, IPC::Output), Seq<LMC::Scalar>)> {
        match Self::challenge_rounds_spec(
            reversed_spec(proof.r_commitment_steps),
            0,
            com,
            LMC::Scalar::zero_spec(),
            Seq::empty(),
        ) {
            Some(pair) => Some((pair.0, reversed_spec(pair.1))),
            None => None,
        }
    }

    /// The keys and commitments folded through the rounds numbered `j` and
    /// up of `rounds` (first round first). `None` where a round finds no
    /// challenge.
    pub open spec fn verify_rounds_spec(
        rounds: Seq<
            ((LMC::Output, RMC::Output, IPC::Output), (LMC::Output, RMC::Output, IPC::Output)),
        >,
        j: nat,
        ck_a: Seq<LMC::Key>,
        ck_b: Seq<RMC::Key>,
        com: (LMC::Output, RMC::Output, IPC::Output),
        prev: LMC::Scalar,
    ) -> Option<(Seq<LMC::Key>, Seq<RMC::Key>, (LMC::Output, RMC::Output, IPC::Output))>
        decreases rounds.len() - j,
    {
        if j >= rounds.len() {
            Some((ck_a, ck_b, com))
        } else {
            match next_challenge_spec::<LMC::Scalar, LMC::Output, RMC::Output, IPC::Output, D>(
                prev,
                rounds[j as int].0,
                rounds[j as int].1,
            ) {
                None => None,
                Some(pair) => Self::verify_rounds_spec(
                    rounds,
                    j + 1,
                    fold_halves_spec(ck_a, pair.1),
                    fold_halves_spec(ck_b, pair.0),
                    Self::fold_commitments_spec(
                        com,
                        rounds[j as int].0,
                        rounds[j as int].1,
                        pair.0,
                        pair.1,
                    ),
                    pair.0,
                ),
            }
        }
    }

    /// The base check: the folded commitments open, under the folded keys,
    /// to the proof's two messages and to their inner product.
    pub open spec fn base_check_spec(
        ck_a: Seq<LMC::Key>,
        ck_b: Seq<RMC::Key>,
        ck_t: Seq<IPC::Key>,
        com: (LMC::Output, RMC::Output, IPC::Output),
        base: (LMC::Message, RMC::Message),
    ) -> bool {
        &&& LMC::commit_spec(ck_a, seq![base.0]) == com.0
        &&& RMC::commit_spec(ck_b, seq![base.1]) == com.1
        &&& IPC::commit_spec(ck_t, seq![IP::inner_product_spec(seq![base.0], seq![base.1])])
            == com.2
    }

    /// What `verify` returns: the checks on the lengths, then whether the
    /// base check holds of what the rounds fold to.
    pub open spec fn verify_spec(
        ck_a: Seq<LMC::Key>,
        ck_b: Seq<RMC::Key>,
        ck_t: IPC::Key,
        com: (LMC::Output, RMC::Output, IPC::Output),
        proof: ProofView<LMC, RMC, IPC>,
    ) -> Result<bool, Error> {
        if !is_power_of_two(ck_a.len()) || ck_a.len() != ck_b.len() {
            Err(Error::MessageLengthInvalid(ck_a.len() as usize, ck_b.len() as usize))
        } else if proof.r_commitment_steps.len() != log2(ck_a.len()) {
            Err(Error::CommitmentError)
        } else {
            match Self::verify_rounds_spec(
                reversed_spec(proof.r_commitment_steps),
                0,
                ck_a,
                ck_b,
                com,
                LMC::Scalar::zero_spec(),
            ) {
                Some(end) => Ok(
                    Self::base_check_spec(end.0, end.1, seq![ck_t], end.2, proof.r_base),
                ),
                None => Err(Error::ChallengeNotFound),
            }
        }
    }

    /// Draws the keys for vectors of length `size`: that many left keys, that
    /// many right keys, and the one key for the inner product.
    pub fn setup<R: RandomSource>(rng: &mut R, size: usize) -> (r: Result<
        (Vec<LMC::Key>, Vec<RMC::Key>, IPC::Key),
        Error,
    >)
        ensures
            r matches Ok(keys) && keys.0@.len() == size && keys.1@.len() == size,
    {
        let ck_a = LMC::setup(rng, size);
        let ck_b = RMC::setup(rng, size);
        let ck_t = IPC::setup(rng, 1);
        Ok((ck_a, ck_b, ck_t[0]))
    }

    /// Proves that `values.2` is the inner product of `values.0` and
    /// `values.1`, after checking the lengths, the product and the openings.
    pub fn prove(
        values: (&[LMC::Message], &[RMC::Message], &IPC::Message),
        ck: (&[LMC::Key], &[RMC::Key], &IPC::Key),
        com: (&LMC::Output, &RMC::Output, &IPC::Output),
    ) -> (r: Result<GIPAProof<IP, LMC, RMC, IPC, D>, Error>)
        ensures
            match r {
                Ok(proof) => Self::prove_spec(
                    values.0@,
                    values.1@,
                    *values.2,
                    ck.0@,
                    ck.1@,
                    *ck.2,
                    (*com.0, *com.1, *com.2),
                ) == Ok::<ProofView<LMC, RMC, IPC>, Error>(proof@),
                Err(e) => Self::prove_spec(
                    values.0@,
                    values.1@,
                    *values.2,
                    ck.0@,
                    ck.1@,
                    *ck.2,
                    (*com.0, *com.1, *com.2),
                ) == Err::<ProofView<LMC, RMC, IPC>, Error>(e),
            },
    {
        if values.0.len() != values.1.len() {
            return Err(Error::MessageLengthInvalid(values.0.len(), values.1.len()));
        }
        if !IP::inner_product(values.0, values.1).same(values.2) {
            return Err(Error::InnerProductInvalid);
        }
        if !check_power_of_two(values.0.len()) {
            return Err(Error::MessageLengthInvalid(values.0.len(), values.1.len()));
        }
        if ck.0.len() != values.0.len() || ck.1.len() != values.1.len() {
            return Err(Error::CommitmentError);
        }
        let ck_t: Vec<IPC::Key> = vec![*ck.2];
        let t: Vec<IPC::Message> = vec![*values.2];
        assert(ck_t@ =~= seq![*ck.2]);
        assert(t@ =~= seq![*values.2]);
        if !(LMC::verify(ck.0, values.0, com.0) && RMC::verify(ck.1, values.1, com.1)
            && IPC::verify(ck_t.as_slice(), t.as_slice(), com.2)) {
            return Err(Error::InnerProductInvalid);
        }
        match Self::prove_with_aux((values.0, values.1), (ck.0, ck.1, ck_t.as_slice())) {
            Ok(pair) => Ok(pair.0),
            Err(e) => Err(e),
        }
    }

    /// Checks a proof against the keys and the three commitments.
    pub fn verify(
        ck: (&[LMC::Key], &[RMC::Key], &IPC::Key),
        com: (&LMC::Output, &RMC::Output, &IPC::Output),
        proof: &GIPAProof<IP, LMC, RMC, IPC, D>,
    ) -> (r: Result<bool, Error>)
        ensures
            r == Self::verify_spec(ck.0@, ck.1@, *ck.2, (*com.0, *com.1, *com.2), proof@),
    {
        if !check_power_of_two(ck.0.len()) || ck.0.len() != ck.1.len() {
            return Err(Error::MessageLengthInvalid(ck.0.len(), ck.1.len()));
        }
        if proof.r_commitment_steps.len() != halvings(ck.0.len()) {
            return Err(Error::CommitmentError);
        }
        let ck_t: Vec<IPC::Key> = vec![*ck.2];
        assert(ck_t@ =~= seq![*ck.2]);
        Self::_verify((copied(ck.0), copied(ck.1), ck_t), (*com.0, *com.1, *com.2), proof)
    }

    /// Proves without checking the product or any opening, and returns the
    /// challenges and the folded keys besides the proof.
    pub fn prove_with_aux(
        values: (&[LMC::Message], &[RMC::Message]),
        ck: (&[LMC::Key], &[RMC::Key], &[IPC::Key]),
    ) -> (r: Result<(GIPAProof<IP, LMC, RMC, IPC, D>, GIPAAux<IP, LMC, RMC, IPC, D>), Error>)
        requires
            is_power_of_two(values.0@.len()),
            values.1@.len() == values.0@.len(),
            ck.0@.len() == values.0@.len(),
            ck.1@.len() == values.0@.len(),
            ck.2@.len() == 1,
        ensures
            match r {
                Ok(pair) => Self::prove_with_aux_spec(values.0@, values.1@, ck.0@, ck.1@, ck.2@)
                    == Some((pair.0@, pair.1@)),
                Err(e) => e == Error::ChallengeNotFound && Self::prove_with_aux_spec(
                    values.0@,
                    values.1@,
                    ck.0@,
                    ck.1@,
                    ck.2@,
                ) is None,
            },
    {
        Self::_prove(
            (copied(values.0), copied(values.1)),
            (copied(ck.0), copied(ck.1), copied(ck.2)),
        )
    }

    fn _prove(
        values: (Vec<LMC::Message>, Vec<RMC::Message>),
        ck: (Vec<LMC::Key>, Vec<RMC::Key>, Vec<IPC::Key>),
    ) -> (r: Result<(GIPAProof<IP, LMC, RMC, IPC, D>, GIPAAux<IP, LMC, RMC, IPC, D>), Error>)
        requires
            is_power_of_two(values.0@.len()),
            values.1@.len() == values.0@.len(),
            ck.0@.len() == values.0@.len(),
            ck.1@.len() == values.0@.len(),
            ck.2@.len() == 1,
        ensures
            match r {
                Ok(pair) => Self::prove_with_aux_spec(values.0@, values.1@, ck.0@, ck.1@, ck.2@)
                    == Some((pair.0@, pair.1@)),
                Err(e) => e == Error::ChallengeNotFound && Self::prove_with_aux_spec(
                    values.0@,
                    values.1@,
                    ck.0@,
                    ck.1@,
                    ck.2@,
                ) is None,
            },
    {
        let ghost goal = Self::prove_with_aux_spec(values.0@, values.1@, ck.0@, ck.1@, ck.2@);
        let (mut m_a, mut m_b) = values;
        let (mut ck_a, mut ck_b, ck_t) = ck;
        let mut r_commitment_steps: Vec<
            ((LMC::Output, RMC::Output, IPC::Output), (LMC::Output, RMC::Output, IPC::Output)),
        > = Vec::new();
        let mut r_transcript: Vec<LMC::Scalar> = Vec::new();
        let mut prev = LMC::Scalar::zero();
        while m_a.len() > 1
            invariant
                is_power_of_two(m_a@.len()),
                m_b@.len() == m_a@.len(),
                ck_a@.len() == m_a@.len(),
                ck_b@.len() == m_a@.len(),
                ck_t@.len() == 1,
                goal == Self::prove_with_aux_spec(values.0@, values.1@, ck.0@, ck.1@, ck.2@),
                Self::prove_rounds_spec(
                    m_a@,
                    m_b@,
                    ck_a@,
                    ck_b@,
                    ck_t@,
                    prev,
                    r_commitment_steps@,
                    r_transcript@,
                ) == goal,
            decreases m_a@.len(),
        {
            let split: usize = m_a.len() / 2;
            let (m_a_2, m_a_1) = m_a.as_slice().split_at(split);
            let (ck_a_1, ck_a_2) = ck_a.as_slice().split_at(split);
            let (m_b_1, m_b_2) = m_b.as_slice().split_at(split);
            let (ck_b_2, ck_b_1) = ck_b.as_slice().split_at(split);
            let ip_1: Vec<IPC::Message> = vec![IP::inner_product(m_a_1, m_b_1)];
            let ip_2: Vec<IPC::Message> = vec![IP::inner_product(m_a_2, m_b_2)];
            assert(ip_1@ =~= seq![IP::inner_product_spec(m_a_1@, m_b_1@)]);
            assert(ip_2@ =~= seq![IP::inner_product_spec(m_a_2@, m_b_2@)]);
            let com_1 = (
                LMC::commit(ck_a_1, m_a_1),
                RMC::commit(ck_b_1, m_b_1),
                IPC::commit(ck_t.as_slice(), ip_1.as_slice()),
            );
            let com_2 = (
                LMC::commit(ck_a_2, m_a_2),
                RMC::commit(ck_b_2, m_b_2),
                IPC::commit(ck_t.as_slice(), ip_2.as_slice()),
            );
            assert((com_1, com_2) == Self::cross_commitments_spec(
                m_a@,
                m_b@,
                ck_a@,
                ck_b@,
                ck_t@,
            ));
            let found = next_challenge::<LMC::Scalar, LMC::Output, RMC::Output, IPC::Output, D>(
                &prev,
                &com_1,
                &com_2,
            );
            let (c, c_inv) = match found {
                Some(pair) => pair,
                None => {
                    return Err(Error::ChallengeNotFound);
                },
            };
            let next_m_a = fold_halves(m_a.as_slice(), &c);
            let next_m_b = fold_halves(m_b.as_slice(), &c_inv);
            let next_ck_a = fold_halves(ck_a.as_slice(), &c_inv);
            let next_ck_b = fold_halves(ck_b.as_slice(), &c);
            m_a = next_m_a;
            m_b = next_m_b;
            ck_a = next_ck_a;
            ck_b = next_ck_b;
            r_commitment_steps.push((com_1, com_2));
            r_transcript.push(c);
            prev = c;
        }
        Ok(
            (
                GIPAProof {
                    r_commitment_steps: reversed(&r_commitment_steps),
                    r_base: (m_a[0], m_b[0]),
                    _gipa: PhantomData,
                },
                GIPAAux {
                    r_transcript: reversed(&r_transcript),
                    ck_base: (ck_a[0], ck_b[0]),
                    _gipa: PhantomData,
                },
            ),
        )
    }

    /// Folds the commitments through a proof's rounds and returns them with
    /// the challenges, last round first. The keys are not folded and nothing
    /// is checked.
    pub fn verify_recursive_challenge_transcript(
        com: (&LMC::Output, &RMC::Output, &IPC::Output),
        proof: &GIPAProof<IP, LMC, RMC, IPC, D>,
    ) -> (r: Result<((LMC::Output, RMC::Output, IPC::Output), Vec<LMC::Scalar>), Error>)
        ensures
            match r {
                Ok(pair) => Self::verify_recursive_challenge_transcript_spec(
                    (*com.0, *com.1, *com.2),
                    proof@,
                ) == Some((pair.0, pair.1@)),
                Err(e) => e == Error::ChallengeNotFound
                    && Self::verify_recursive_challenge_transcript_spec(
                    (*com.0, *com.1, *com.2),
                    proof@,
                ) is None,
            },
    {
        Self::_verify_recursive_challenges((*com.0, *com.1, *com.2), proof)
    }

    fn _verify_recursive_challenges(
        com: (LMC::Output, RMC::Output, IPC::Output),
        proof: &GIPAProof<IP, LMC, RMC, IPC, D>,
    ) -> (r: Result<((LMC::Output, RMC::Output, IPC::Output), Vec<LMC::Scalar>), Error>)
        ensures
            match r {
                Ok(pair) => Self::verify_recursive_challenge_transcript_spec(com, proof@) == Some(
                    (pair.0, pair.1@),
                ),
                Err(e) => e == Error::ChallengeNotFound
                    && Self::verify_recursive_challenge_transcript_spec(com, proof@) is None,
            },
    {
        let ghost rounds = reversed_spec(proof.r_commitment_steps@);
        let ghost goal = Self::challenge_rounds_spec(
            rounds,
            0,
            com,
            LMC::Scalar::zero_spec(),
            Seq::empty(),
        );
        let (mut com_a, mut com_b, mut com_t) = com;
        let mut r_transcript: Vec<LMC::Scalar> = Vec::new();
        let mut prev = LMC::Scalar::zero();
        let n: usize = proof.r_commitment_steps.len();
        let mut j: usize = 0;
        while j < n
            invariant
                j <= n,
                n == proof.r_commitment_steps@.len(),
                rounds == reversed_spec(proof.r_commitment_steps@),
                goal == Self::challenge_rounds_spec(
                    rounds,
                    0,
                    com,
                    LMC::Scalar::zero_spec(),
                    Seq::empty(),
                ),
                Self::challenge_rounds_spec(
                    rounds,
                    j as nat,
                    (com_a, com_b, com_t),
                    prev,
                    r_transcript@,
                ) == goal,
            decreases n - j,
        {
            let step = &proof.r_commitment_steps[n - 1 - j];
            assert(*step == rounds[j as int]);
            let found = next_challenge::<LMC::Scalar, LMC::Output, RMC::Output, IPC::Output, D>(
                &prev,
                &step.0,
                &step.1,
            );
            let (c, c_inv) = match found {
                Some(pair) => pair,
                None => {
                    return Err(Error::ChallengeNotFound);
                },
            };
            com_a = fold_commitment(&com_a, &step.0.0, &step.1.0, &c, &c_inv);
            com_b = fold_commitment(&com_b, &step.0.1, &step.1.1, &c, &c_inv);
            com_t = fold_commitment(&com_t, &step.0.2, &step.1.2, &c, &c_inv);
            r_transcript.push(c);
            prev = c;
            j = j + 1;
        }
        Ok(((com_a, com_b, com_t), reversed(&r_transcript)))
    }

    fn _verify(
        ck: (Vec<LMC::Key>, Vec<RMC::Key>, Vec<IPC::Key>),
        com: (LMC::Output, RMC::Output, IPC::Output),
        proof: &GIPAProof<IP, LMC, RMC, IPC, D>,
    ) -> (r: Result<bool, Error>)
        requires
            is_power_of_two(ck.0@.len()),
            ck.1@.len() == ck.0@.len(),
            ck.2@.len() == 1,
            proof.r_commitment_steps@.len() == log2(ck.0@.len()),
        ensures
            r == (match Self::verify_rounds_spec(
                reversed_spec(proof.r_commitment_steps@),
                0,
                ck.0@,
                ck.1@,
                com,
                LMC::Scalar::zero_spec(),
            ) {
                Some(end) => Ok::<bool, Error>(
                    Self::base_check_spec(end.0, end.1, ck.2@, end.2, proof.r_base),
                ),
                None => Err::<bool, Error>(Error::ChallengeNotFound),
            }),
    {
        let ghost rounds = reversed_spec(proof.r_commitment_steps@);
        let ghost goal = Self::verify_rounds_spec(
            rounds,
            0,
            ck.0@,
            ck.1@,
            com,
            LMC::Scalar::zero_spec(),
        );
        let (mut ck_a, mut ck_b, ck_t) = ck;
        let (mut com_a, mut com_b, mut com_t) = com;
        let mut prev = LMC::Scalar::zero();
        let n: usize = proof.r_commitment_steps.len();
        let mut j: usize = 0;
        while j < n
            invariant
                j <= n,
                n == proof.r_commitment_steps@.len(),
                rounds == reversed_spec(proof.r_commitment_steps@),
                is_power_of_two(ck_a@.len()),
                ck_b@.len() == ck_a@.len(),
                log2(ck_a@.len()) + j == n,
                ck_t@ == ck.2@,
                goal == Self::verify_rounds_spec(
                    rounds,
                    0,
                    ck.0@,
                    ck.1@,
                    com,
                    LMC::Scalar::zero_spec(),
                ),
                Self::verify_rounds_spec(rounds, j as nat, ck_a@, ck_b@, (com_a, com_b, com_t), prev)
                    == goal,
            decreases n - j,
        {
            let step = &proof.r_commitment_steps[n - 1 - j];
            assert(*step == rounds[j as int]);
            let found = next_challenge::<LMC::Scalar, LMC::Output, RMC::Output, IPC::Output, D>(
                &prev,
                &step.0,
                &step.1,
            );
            let (c, c_inv) = match found {
                Some(pair) => pair,
                None => {
                    return Err(Error::ChallengeNotFound);
                },
            };
            let next_ck_a = fold_halves(ck_a.as_slice(), &c_inv);
            let next_ck_b = fold_halves(ck_b.as_slice(), &c);
            ck_a = next_ck_a;
            ck_b = next_ck_b;
            com_a = fold_commitment(&com_a, &step.0.0, &step.1.0, &c, &c_inv);
            com_b = fold_commitment(&com_b, &step.0.1, &step.1.1, &c, &c_inv);
            com_t = fold_commitment(&com_t, &step.0.2, &step.1.2, &c, &c_inv);
            prev = c;
            j = j + 1;
        }
        let a_base: Vec<LMC::Message> = vec![proof.r_base.0];
        let b_base: Vec<RMC::Message> = vec![proof.r_base.1];
        assert(a_base@ =~= seq![proof.r_base.0]);
        assert(b_base@ =~= seq![proof.r_base.1]);
        let t_base: Vec<IPC::Message> = vec![
            IP::inner_product(a_base.as_slice(), b_base.as_slice()),
        ];
        assert(t_base@ =~= seq![IP::inner_product_spec(a_base@, b_base@)]);
        Ok(
            LMC::verify(ck_a.as_slice(), a_base.as_slice(), &com_a) && RMC::verify(
                ck_b.as_slice(),
                b_base.as_slice(),
                &com_b,
            ) && IPC::verify(ck_t.as_slice(), t_base.as_slice(), &com_t),
        )
    }
}

} // verus!
