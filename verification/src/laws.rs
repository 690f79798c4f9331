//! What holds of the prover and the verifier together.
use vstd::prelude::*;
use crate::bilinear::{
    add_vec, adds_right, bilinear, lemma_fold_bilinear, lemma_rearrange, linear_right, lower,
    scale_vec,
    scales_right, upper,
};
use crate::fold::{fold_halves_spec, is_power_of_two, log2, reversed_spec};
use crate::gipa::{AuxView, Error, ProofView, GIPA};
use crate::interfaces::{Digest, DoublyHomomorphicCommitment, Field, InnerProduct, Module};
use crate::transcript::{lemma_challenge_from_inverse, next_challenge_spec};

verus! {

/// Reversing twice gives the sequence back.
pub proof fn lemma_reversed_twice<T>(s: Seq<T>)
    ensures
        reversed_spec(reversed_spec(s)) == s,
{
    assert(reversed_spec(reversed_spec(s)) =~= s);
}

impl<IP, LMC, RMC, IPC, D> GIPA<IP, LMC, RMC, IPC, D> where
    D: Digest,
    IP: InnerProduct<LeftMessage = LMC::Message, RightMessage = RMC::Message, Output = IPC::Message>,
    LMC: DoublyHomomorphicCommitment,
    RMC: DoublyHomomorphicCommitment<Scalar = LMC::Scalar>,
    IPC: DoublyHomomorphicCommitment<Scalar = LMC::Scalar>,
{
    /// From any round on, the prover adds one round and one challenge for
    /// each halving that is left.
    pub proof fn lemma_rounds_shape(
        m_a: Seq<LMC::Message>,
        m_b: Seq<RMC::Message>,
        ck_a: Seq<LMC::Key>,
        ck_b: Seq<RMC::Key>,
        ck_t: Seq<IPC::Key>,
        prev: LMC::Scalar,
        steps: Seq<
            ((LMC::Output, RMC::Output, IPC::Output), (LMC::Output, RMC::Output, IPC::Output)),
        >,
        transcript: Seq<LMC::Scalar>,
        proof: ProofView<LMC, RMC, IPC>,
        aux: AuxView<LMC, RMC>,
    )
        requires
            Self::prove_rounds_spec(m_a, m_b, ck_a, ck_b, ck_t, prev, steps, transcript) == Some(
                (proof, aux),
            ),
        ensures
            proof.r_commitment_steps.len() == steps.len() + log2(m_a.len()),
            aux.r_transcript.len() == transcript.len() + log2(m_a.len()),
        decreases m_a.len(),
    {
        if m_a.len() > 1 {
            let round = Self::cross_commitments_spec(m_a, m_b, ck_a, ck_b, ck_t);
            let pair = next_challenge_spec::<LMC::Scalar, LMC::Output, RMC::Output, IPC::Output, D>(
                prev,
                round.0,
                round.1,
            )->Some_0;
            Self::lemma_rounds_shape(
                fold_halves_spec(m_a, pair.0),
                fold_halves_spec(m_b, pair.1),
                fold_halves_spec(ck_a, pair.1),
                fold_halves_spec(ck_b, pair.0),
                ck_t,
                pair.0,
                steps.push(round),
                transcript.push(pair.0),
                proof,
                aux,
            );
        }
    }

    /// A proof for vectors of length `n` holds one round for each halving of
    /// `n`, and the by-product one challenge for each.
    pub proof fn law_proof_shape(
        m_a: Seq<LMC::Message>,
        m_b: Seq<RMC::Message>,
        ck_a: Seq<LMC::Key>,
        ck_b: Seq<RMC::Key>,
        ck_t: Seq<IPC::Key>,
        proof: ProofView<LMC, RMC, IPC>,
        aux: AuxView<LMC, RMC>,
    )
        requires
            Self::prove_with_aux_spec(m_a, m_b, ck_a, ck_b, ck_t) == Some((proof, aux)),
        ensures
            proof.r_commitment_steps.len() == log2(m_a.len()),
            aux.r_transcript.len() == log2(m_a.len()),
    {
        Self::lemma_rounds_shape(
            m_a,
            m_b,
            ck_a,
            ck_b,
            ck_t,
            LMC::Scalar::zero_spec(),
            Seq::empty(),
            Seq::empty(),
            proof,
            aux,
        );
    }

    /// From any round on, the challenges that the verifier derives from the
    /// finished proof's remaining rounds are those that the prover drew.
    pub proof fn lemma_rounds_transcript(
        m_a: Seq<LMC::Message>,
        m_b: Seq<RMC::Message>,
        ck_a: Seq<LMC::Key>,
        ck_b: Seq<RMC::Key>,
        ck_t: Seq<IPC::Key>,
        prev: LMC::Scalar,
        steps: Seq<
            ((LMC::Output, RMC::Output, IPC::Output), (LMC::Output, RMC::Output, IPC::Output)),
        >,
        transcript: Seq<LMC::Scalar>,
        com: (LMC::Output, RMC::Output, IPC::Output),
        proof: ProofView<LMC, RMC, IPC>,
        aux: AuxView<LMC, RMC>,
    )
        requires
            Self::prove_rounds_spec(m_a, m_b, ck_a, ck_b, ck_t, prev, steps, transcript) == Some(
                (proof, aux),
            ),
        ensures
            steps.len() <= proof.r_commitment_steps.len(),
            forall|i: int|
                0 <= i < steps.len() ==> reversed_spec(proof.r_commitment_steps)[i] == steps[i],
            Self::challenge_rounds_spec(
                reversed_spec(proof.r_commitment_steps),
                steps.len(),
                com,
                prev,
                transcript,
            ) matches Some(end) && end.1 == reversed_spec(aux.r_transcript),
        decreases m_a.len(),
    {
        let rounds = reversed_spec(proof.r_commitment_steps);
        if m_a.len() <= 1 {
            lemma_reversed_twice(steps);
            lemma_reversed_twice(transcript);
        } else {
            let round = Self::cross_commitments_spec(m_a, m_b, ck_a, ck_b, ck_t);
            let pair = next_challenge_spec::<LMC::Scalar, LMC::Output, RMC::Output, IPC::Output, D>(
                prev,
                round.0,
                round.1,
            )->Some_0;
            Self::lemma_rounds_transcript(
                fold_halves_spec(m_a, pair.0),
                fold_halves_spec(m_b, pair.1),
                fold_halves_spec(ck_a, pair.1),
                fold_halves_spec(ck_b, pair.0),
                ck_t,
                pair.0,
                steps.push(round),
                transcript.push(pair.0),
                Self::fold_commitments_spec(com, round.0, round.1, pair.0, pair.1),
                proof,
                aux,
            );
            assert(rounds[steps.len() as int] == steps.push(round)[steps.len() as int]);
            assert forall|i: int| 0 <= i < steps.len() implies rounds[i] == steps[i] by {
                assert(rounds[i] == steps.push(round)[i]);
            }
        }
    }

    /// The challenges that `verify_recursive_challenge_transcript` derives
    /// from a proof are, one by one and in order, those that
    /// `prove_with_aux` returned beside it, whatever the commitments.
    pub proof fn law_transcript_agreement(
        m_a: Seq<LMC::Message>,
        m_b: Seq<RMC::Message>,
        ck_a: Seq<LMC::Key>,
        ck_b: Seq<RMC::Key>,
        ck_t: Seq<IPC::Key>,
        com: (LMC::Output, RMC::Output, IPC::Output),
        proof: ProofView<LMC, RMC, IPC>,
        aux: AuxView<LMC, RMC>,
    )
        requires
            Self::prove_with_aux_spec(m_a, m_b, ck_a, ck_b, ck_t) == Some((proof, aux)),
        ensures
            Self::verify_recursive_challenge_transcript_spec(com, proof) matches Some(end)
                && end.1 == aux.r_transcript,
    {
        Self::lemma_rounds_transcript(
            m_a,
            m_b,
            ck_a,
            ck_b,
            ck_t,
            LMC::Scalar::zero_spec(),
            Seq::empty(),
            Seq::empty(),
            com,
            proof,
            aux,
        );
        lemma_reversed_twice(aux.r_transcript);
    }

    /// The verifier and the transcript helper fold the commitments alike:
    /// from any round on both find their challenges or neither does, and
    /// they end in the same three commitments.
    pub proof fn law_transcript_folds_as_verifier(
        rounds: Seq<
            ((LMC::Output, RMC::Output, IPC::Output), (LMC::Output, RMC::Output, IPC::Output)),
        >,
        j: nat,
        ck_a: Seq<LMC::Key>,
        ck_b: Seq<RMC::Key>,
        com: (LMC::Output, RMC::Output, IPC::Output),
        prev: LMC::Scalar,
        transcript: Seq<LMC::Scalar>,
    )
        ensures
            match (
                Self::verify_rounds_spec(rounds, j, ck_a, ck_b, com, prev),
                Self::challenge_rounds_spec(rounds, j, com, prev, transcript),
            ) {
                (Some(end), Some(folded)) => end.2 == folded.0,
                (None, None) => true,
                _ => false,
            },
        decreases rounds.len() - j,
    {
        if j < rounds.len() {
            let found = next_challenge_spec::<
                LMC::Scalar,
                LMC::Output,
                RMC::Output,
                IPC::Output,
                D,
            >(prev, rounds[j as int].0, rounds[j as int].1);
            if let Some(pair) = found {
                Self::law_transcript_folds_as_verifier(
                    rounds,
                    j + 1,
                    fold_halves_spec(ck_a, pair.1),
                    fold_halves_spec(ck_b, pair.0),
                    Self::fold_commitments_spec(
                        com,
                        rounds[j as int].0,
                        rounds[j as int].1,
                        pair.0,
                        pair.1,
                    ),
                    pair.0,
                    transcript.push(pair.0),
                );
            }
        }
    }

    /// Proving is a function of its inputs: two runs on the same messages,
    /// keys and commitments end in the same proof or the same error.
    pub proof fn law_prove_deterministic(
        m_a: Seq<LMC::Message>,
        m_b: Seq<RMC::Message>,
        t: IPC::Message,
        ck_a: Seq<LMC::Key>,
        ck_b: Seq<RMC::Key>,
        ck_t: IPC::Key,
        com: (LMC::Output, RMC::Output, IPC::Output),
        first: Result<ProofView<LMC, RMC, IPC>, Error>,
        second: Result<ProofView<LMC, RMC, IPC>, Error>,
    )
        requires
            first == Self::prove_spec(m_a, m_b, t, ck_a, ck_b, ck_t, com),
            second == Self::prove_spec(m_a, m_b, t, ck_a, ck_b, ck_t, com),
        ensures
            first == second,
    {
    }

    /// Proving for a length that is no power of two fails with that length,
    /// unless the vectors have one length and the claimed product is wrong.
    pub proof fn law_prove_checks_length(
        m_a: Seq<LMC::Message>,
        m_b: Seq<RMC::Message>,
        t: IPC::Message,
        ck_a: Seq<LMC::Key>,
        ck_b: Seq<RMC::Key>,
        ck_t: IPC::Key,
        com: (LMC::Output, RMC::Output, IPC::Output),
    )
        requires
            !is_power_of_two(m_a.len()),
            m_a.len() != m_b.len() || IP::inner_product_spec(m_a, m_b) == t,
        ensures
            Self::prove_spec(m_a, m_b, t, ck_a, ck_b, ck_t, com) == Err::<
                ProofView<LMC, RMC, IPC>,
                Error,
            >(Error::MessageLengthInvalid(m_a.len() as usize, m_b.len() as usize)),
    {
    }

    /// Verifying under a number of keys that is no power of two fails with
    /// the two numbers of keys.
    pub proof fn law_verify_checks_length(
        ck_a: Seq<LMC::Key>,
        ck_b: Seq<RMC::Key>,
        ck_t: IPC::Key,
        com: (LMC::Output, RMC::Output, IPC::Output),
        proof: ProofView<LMC, RMC, IPC>,
    )
        requires
            !is_power_of_two(ck_a.len()),
        ensures
            Self::verify_spec(ck_a, ck_b, ck_t, com, proof) == Err::<bool, Error>(
                Error::MessageLengthInvalid(ck_a.len() as usize, ck_b.len() as usize),
            ),
    {
    }

    /// Proving with a claimed product that is not the inner product of two
    /// vectors of one length fails with `InnerProductInvalid`.
    pub proof fn law_prove_checks_product(
        m_a: Seq<LMC::Message>,
        m_b: Seq<RMC::Message>,
        t: IPC::Message,
        ck_a: Seq<LMC::Key>,
        ck_b: Seq<RMC::Key>,
        ck_t: IPC::Key,
        com: (LMC::Output, RMC::Output, IPC::Output),
    )
        requires
            m_a.len() == m_b.len(),
            IP::inner_product_spec(m_a, m_b) != t,
        ensures
            Self::prove_spec(m_a, m_b, t, ck_a, ck_b, ck_t, com) == Err::<
                ProofView<LMC, RMC, IPC>,
                Error,
            >(Error::InnerProductInvalid),
    {
    }

    /// Proving with a commitment that does not open to what was given fails
    /// with `InnerProductInvalid`, where the lengths are in order.
    pub proof fn law_prove_checks_openings(
        m_a: Seq<LMC::Message>,
        m_b: Seq<RMC::Message>,
        t: IPC::Message,
        ck_a: Seq<LMC::Key>,
        ck_b: Seq<RMC::Key>,
        ck_t: IPC::Key,
        com: (LMC::Output, RMC::Output, IPC::Output),
    )
        requires
            is_power_of_two(m_a.len()),
            m_b.len() == m_a.len(),
            ck_a.len() == m_a.len(),
            ck_b.len() == m_a.len(),
            !Self::openings_hold(m_a, m_b, t, ck_a, ck_b, ck_t, com),
        ensures
            Self::prove_spec(m_a, m_b, t, ck_a, ck_b, ck_t, com) == Err::<
                ProofView<LMC, RMC, IPC>,
                Error,
            >(Error::InnerProductInvalid),
    {
    }

    /// The left commitment as a map on two vectors.
    pub open spec fn left_commit_fn() -> spec_fn(Seq<LMC::Key>, Seq<LMC::Message>) -> LMC::Output {
        |k: Seq<LMC::Key>, m: Seq<LMC::Message>| LMC::commit_spec(k, m)
    }

    /// The right commitment as a map on two vectors.
    pub open spec fn right_commit_fn() -> spec_fn(Seq<RMC::Key>, Seq<RMC::Message>) -> RMC::Output {
        |k: Seq<RMC::Key>, m: Seq<RMC::Message>| RMC::commit_spec(k, m)
    }

    /// The commitment to the product as a map on two vectors.
    pub open spec fn product_commit_fn() -> spec_fn(
        Seq<IPC::Key>,
        Seq<IPC::Message>,
    ) -> IPC::Output {
        |k: Seq<IPC::Key>, m: Seq<IPC::Message>| IPC::commit_spec(k, m)
    }

    /// The inner product as a map on two vectors.
    pub open spec fn inner_product_fn() -> spec_fn(
        Seq<LMC::Message>,
        Seq<RMC::Message>,
    ) -> IPC::Message {
        |a: Seq<LMC::Message>, b: Seq<RMC::Message>| IP::inner_product_spec(a, b)
    }

    /// The commitments to the messages are linear in keys and in messages,
    /// the commitment to the product is linear in its message, and the inner
    /// product is bilinear.
    pub open spec fn doubly_homomorphic() -> bool {
        &&& bilinear::<LMC::Scalar, LMC::Key, LMC::Message, LMC::Output>(Self::left_commit_fn())
        &&& bilinear::<LMC::Scalar, RMC::Key, RMC::Message, RMC::Output>(Self::right_commit_fn())
        &&& linear_right::<LMC::Scalar, IPC::Key, IPC::Message, IPC::Output>(
            Self::product_commit_fn(),
        )
        &&& bilinear::<LMC::Scalar, LMC::Message, RMC::Message, IPC::Message>(
            Self::inner_product_fn(),
        )
    }

    /// The three commitments are those to the messages and to their inner
    /// product, under the keys.
    pub open spec fn opens(
        m_a: Seq<LMC::Message>,
        m_b: Seq<RMC::Message>,
        ck_a: Seq<LMC::Key>,
        ck_b: Seq<RMC::Key>,
        ck_t: Seq<IPC::Key>,
        com: (LMC::Output, RMC::Output, IPC::Output),
    ) -> bool {
        &&& com.0 == LMC::commit_spec(ck_a, m_a)
        &&& com.1 == RMC::commit_spec(ck_b, m_b)
        &&& com.2 == IPC::commit_spec(ck_t, seq![IP::inner_product_spec(m_a, m_b)])
    }

    /// Under one key the commitment to the product is additive and
    /// homogeneous in its one message.
    pub proof fn lemma_product_commit_linear(
        ck_t: Seq<IPC::Key>,
        x: IPC::Message,
        y: IPC::Message,
        c: LMC::Scalar,
    )
        requires
            Self::doubly_homomorphic(),
            ck_t.len() == 1,
        ensures
            IPC::commit_spec(ck_t, seq![x.plus_spec(y)]) == IPC::commit_spec(
                ck_t,
                seq![x],
            ).plus_spec(IPC::commit_spec(ck_t, seq![y])),
            IPC::commit_spec(ck_t, seq![x.scaled_spec(c)]) == IPC::commit_spec(
                ck_t,
                seq![x],
            ).scaled_spec(c),
    {
        let f = Self::product_commit_fn();
        assert(add_vec::<LMC::Scalar, IPC::Message>(seq![x], seq![y]) =~= seq![x.plus_spec(y)]);
        assert(scale_vec::<LMC::Scalar, IPC::Message>(seq![x], c) =~= seq![x.scaled_spec(c)]);
        assert(adds_right::<LMC::Scalar, IPC::Key, IPC::Message, IPC::Output>(
            f,
            ck_t,
            seq![x],
            seq![y],
        ));
        assert(scales_right::<LMC::Scalar, IPC::Key, IPC::Message, IPC::Output>(
            f,
            ck_t,
            seq![x],
            c,
        ));
    }

    /// One round keeps the openings: what the verifier folds the commitments
    /// to is what commits to the prover's folded messages under the folded
    /// keys.
    pub proof fn lemma_round_keeps_openings(
        m_a: Seq<LMC::Message>,
        m_b: Seq<RMC::Message>,
        ck_a: Seq<LMC::Key>,
        ck_b: Seq<RMC::Key>,
        ck_t: Seq<IPC::Key>,
        com: (LMC::Output, RMC::Output, IPC::Output),
        c: LMC::Scalar,
        c_inv: LMC::Scalar,
    )
        requires
            Self::doubly_homomorphic(),
            m_a.len() % 2 == 0,
            m_b.len() == m_a.len(),
            ck_a.len() == m_a.len(),
            ck_b.len() == m_a.len(),
            ck_t.len() == 1,
            c.inverse_spec() == Some(c_inv),
            Self::opens(m_a, m_b, ck_a, ck_b, ck_t, com),
        ensures
            Self::opens(
                fold_halves_spec(m_a, c),
                fold_halves_spec(m_b, c_inv),
                fold_halves_spec(ck_a, c_inv),
                fold_halves_spec(ck_b, c),
                ck_t,
                Self::fold_commitments_spec(
                    com,
                    Self::cross_commitments_spec(m_a, m_b, ck_a, ck_b, ck_t).0,
                    Self::cross_commitments_spec(m_a, m_b, ck_a, ck_b, ck_t).1,
                    c,
                    c_inv,
                ),
            ),
    {
        let round = Self::cross_commitments_spec(m_a, m_b, ck_a, ck_b, ck_t);
        let fl = Self::left_commit_fn();
        lemma_fold_bilinear::<LMC::Scalar, LMC::Key, LMC::Message, LMC::Output>(
            fl,
            ck_a,
            m_a,
            c_inv,
            c,
        );
        assert(round.0.0 == fl(lower(ck_a), upper(m_a)));
        assert(round.1.0 == fl(upper(ck_a), lower(m_a)));
        lemma_rearrange::<LMC::Scalar, LMC::Output>(
            fl(upper(ck_a), upper(m_a)),
            round.1.0.scaled_spec(c_inv),
            round.0.0.scaled_spec(c),
            fl(lower(ck_a), lower(m_a)),
        );
        let fr = Self::right_commit_fn();
        lemma_fold_bilinear::<LMC::Scalar, RMC::Key, RMC::Message, RMC::Output>(
            fr,
            ck_b,
            m_b,
            c,
            c_inv,
        );
        assert(round.0.1 == fr(upper(ck_b), lower(m_b)));
        assert(round.1.1 == fr(lower(ck_b), upper(m_b)));
        lemma_rearrange::<LMC::Scalar, RMC::Output>(
            fr(upper(ck_b), upper(m_b)),
            round.1.1.scaled_spec(c_inv),
            round.0.1.scaled_spec(c),
            fr(lower(ck_b), lower(m_b)),
        );
        let fi = Self::inner_product_fn();
        lemma_fold_bilinear::<LMC::Scalar, LMC::Message, RMC::Message, IPC::Message>(
            fi,
            m_a,
            m_b,
            c,
            c_inv,
        );
        let p = fi(upper(m_a), upper(m_b));
        let q = fi(lower(m_a), lower(m_b));
        let y1 = fi(upper(m_a), lower(m_b));
        let y2 = fi(lower(m_a), upper(m_b));
        assert(round.0.2 == IPC::commit_spec(ck_t, seq![y1]));
        assert(round.1.2 == IPC::commit_spec(ck_t, seq![y2]));
        Self::lemma_product_commit_linear(ck_t, q, p, c);
        Self::lemma_product_commit_linear(
            ck_t,
            p.plus_spec(y1.scaled_spec(c)),
            y2.scaled_spec(c_inv).plus_spec(q),
            c,
        );
        Self::lemma_product_commit_linear(ck_t, p, y1.scaled_spec(c), c);
        Self::lemma_product_commit_linear(ck_t, y2.scaled_spec(c_inv), q, c);
        Self::lemma_product_commit_linear(ck_t, y1, y1, c);
        Self::lemma_product_commit_linear(ck_t, y2, y2, c_inv);
        lemma_rearrange::<LMC::Scalar, IPC::Output>(
            IPC::commit_spec(ck_t, seq![p]),
            round.1.2.scaled_spec(c_inv),
            round.0.2.scaled_spec(c),
            IPC::commit_spec(ck_t, seq![q]),
        );
    }

    /// From any round on: where the commitments open to the prover's
    /// messages, the verifier's folding of the finished proof's remaining
    /// rounds ends in a base check that holds.
    pub proof fn lemma_rounds_complete(
        m_a: Seq<LMC::Message>,
        m_b: Seq<RMC::Message>,
        ck_a: Seq<LMC::Key>,
        ck_b: Seq<RMC::Key>,
        ck_t: Seq<IPC::Key>,
        prev: LMC::Scalar,
        steps: Seq<
            ((LMC::Output, RMC::Output, IPC::Output), (LMC::Output, RMC::Output, IPC::Output)),
        >,
        transcript: Seq<LMC::Scalar>,
        com: (LMC::Output, RMC::Output, IPC::Output),
        proof: ProofView<LMC, RMC, IPC>,
        aux: AuxView<LMC, RMC>,
    )
        requires
            Self::doubly_homomorphic(),
            is_power_of_two(m_a.len()),
            m_b.len() == m_a.len(),
            ck_a.len() == m_a.len(),
            ck_b.len() == m_a.len(),
            ck_t.len() == 1,
            Self::opens(m_a, m_b, ck_a, ck_b, ck_t, com),
            Self::prove_rounds_spec(m_a, m_b, ck_a, ck_b, ck_t, prev, steps, transcript) == Some(
                (proof, aux),
            ),
        ensures
            Self::verify_rounds_spec(
                reversed_spec(proof.r_commitment_steps),
                steps.len(),
                ck_a,
                ck_b,
                com,
                prev,
            ) matches Some(end) && Self::base_check_spec(
                end.0,
                end.1,
                ck_t,
                end.2,
                proof.r_base,
            ),
        decreases m_a.len(),
    {
        let rounds = reversed_spec(proof.r_commitment_steps);
        if m_a.len() <= 1 {
            lemma_reversed_twice(steps);
            assert(m_a =~= seq![m_a[0]]);
            assert(m_b =~= seq![m_b[0]]);
        } else {
            let round = Self::cross_commitments_spec(m_a, m_b, ck_a, ck_b, ck_t);
            let pair = next_challenge_spec::<LMC::Scalar, LMC::Output, RMC::Output, IPC::Output, D>(
                prev,
                round.0,
                round.1,
            )->Some_0;
            lemma_challenge_from_inverse::<LMC::Scalar, LMC::Output, RMC::Output, IPC::Output, D>(
                0,
                prev,
                round.0,
                round.1,
            );
            let next_com = Self::fold_commitments_spec(com, round.0, round.1, pair.0, pair.1);
            Self::lemma_round_keeps_openings(m_a, m_b, ck_a, ck_b, ck_t, com, pair.0, pair.1);
            Self::lemma_rounds_transcript(
                fold_halves_spec(m_a, pair.0),
                fold_halves_spec(m_b, pair.1),
                fold_halves_spec(ck_a, pair.1),
                fold_halves_spec(ck_b, pair.0),
                ck_t,
                pair.0,
                steps.push(round),
                transcript.push(pair.0),
                next_com,
                proof,
                aux,
            );
            Self::lemma_rounds_complete(
                fold_halves_spec(m_a, pair.0),
                fold_halves_spec(m_b, pair.1),
                fold_halves_spec(ck_a, pair.1),
                fold_halves_spec(ck_b, pair.0),
                ck_t,
                pair.0,
                steps.push(round),
                transcript.push(pair.0),
                next_com,
                proof,
                aux,
            );
            assert(rounds[steps.len() as int] == steps.push(round)[steps.len() as int]);
        }
    }

    /// Where the commitments are doubly homomorphic and the inner product is
    /// bilinear, every proof that `prove` returns is accepted by `verify`
    /// under the same keys and commitments.
    pub proof fn law_completeness(
        m_a: Seq<LMC::Message>,
        m_b: Seq<RMC::Message>,
        t: IPC::Message,
        ck_a: Seq<LMC::Key>,
        ck_b: Seq<RMC::Key>,
        ck_t: IPC::Key,
        com: (LMC::Output, RMC::Output, IPC::Output),
        proof: ProofView<LMC, RMC, IPC>,
    )
        requires
            Self::doubly_homomorphic(),
            Self::prove_spec(m_a, m_b, t, ck_a, ck_b, ck_t, com) == Ok::<
                ProofView<LMC, RMC, IPC>,
                Error,
            >(proof),
        ensures
            Self::verify_spec(ck_a, ck_b, ck_t, com, proof) == Ok::<bool, Error>(true),
    {
        let pair = Self::prove_with_aux_spec(m_a, m_b, ck_a, ck_b, seq![ck_t])->Some_0;
        Self::law_proof_shape(m_a, m_b, ck_a, ck_b, seq![ck_t], proof, pair.1);
        Self::lemma_rounds_complete(
            m_a,
            m_b,
            ck_a,
            ck_b,
            seq![ck_t],
            LMC::Scalar::zero_spec(),
            Seq::empty(),
            Seq::empty(),
            com,
            proof,
            pair.1,
        );
    }
}

} // verus!
