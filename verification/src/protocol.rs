//! The Verifier's side of the protocol: it drives the round loop, checks
//! each round polynomial against the running target sum, and closes with
//! one direct evaluation of the polynomial at the challenge point.

use crate::field::{lemma_fp_eq, Fp};
use crate::polynomial::{fp_views, hypercube_sum, MultiVariatePolynomial};
use crate::prover::Prover;
use vstd::prelude::*;

verus! {

/// The Verifier's transcript state: its own copy of the polynomial, the
/// originally claimed sum, the round index, and the challenges issued so
/// far.
pub struct Verifier {
    pub polynomial: MultiVariatePolynomial,
    pub claimed_sum: Fp,
    pub current_round: usize,
    pub values_so_far: Vec<Fp>,
}

impl Verifier {
    pub fn new(polynomial: MultiVariatePolynomial, claimed_sum: Fp) -> (r: Self)
        ensures
            r.polynomial == polynomial,
            r.claimed_sum == claimed_sum,
            r.current_round == 0,
            r.values_so_far@ =~= Seq::<Fp>::empty(),
    {
        Verifier { polynomial, claimed_sum, current_round: 0, values_so_far: Vec::new() }
    }

    /// Drives the whole protocol against `prover`, issuing one challenge
    /// per round from `challenges` (drawn by the caller, who must keep them
    /// unpredictable to the Prover for the run to carry any soundness).
    ///
    /// Acceptance is exact: the run is accepted if and only if the claimed
    /// sum equals the polynomial's true sum over the boolean hypercube —
    /// whatever challenges are supplied. A true claim is therefore always
    /// accepted, and a false one always rejected by this honest Prover.
    #[verifier::loop_isolation(false)]
    pub fn verify(&mut self, prover: &mut Prover, challenges: &Vec<Fp>) -> (accepted: bool)
        requires
            old(self).polynomial.wf(),
            old(self).current_round == 0,
            old(self).values_so_far@.len() == 0,
            old(prover).wf(),
            old(prover).polynomial@ == old(self).polynomial@,
            old(prover).polynomial.num_variables == old(self).polynomial.num_variables,
            old(prover).current_round == 0,
            !old(prover).awaiting_challenge,
            challenges@.len() == old(self).polynomial.num_variables,
        ensures
            accepted == (old(self).claimed_sum@ == hypercube_sum(
                old(self).polynomial@,
                Seq::<int>::empty(),
                old(self).polynomial.num_variables as nat,
            )),
            final(self).polynomial == old(self).polynomial,
            final(self).claimed_sum == old(self).claimed_sum,
            accepted ==> final(self).values_so_far@ == challenges@ && final(self).current_round
                == old(self).polynomial.num_variables && final(prover).challenges@ == challenges@,
    {
        let num_vars = self.polynomial.num_variables;
        let ghost terms = self.polynomial@;
        let mut current_sum = self.claimed_sum;
        let mut round: usize = 0;
        while round < num_vars
            invariant
                round <= num_vars,
                self.polynomial == old(self).polynomial,
                self.claimed_sum == old(self).claimed_sum,
                self.current_round == round,
                self.values_so_far@ == challenges@.take(round as int),
                prover.wf(),
                prover.polynomial@ == terms,
                prover.polynomial.num_variables == num_vars,
                prover.current_round == round,
                !prover.awaiting_challenge,
                prover.challenges@ == challenges@.take(round as int),
                round == 0 ==> current_sum == old(self).claimed_sum,
                round > 0 ==> old(self).claimed_sum@ == hypercube_sum(
                    terms,
                    Seq::<int>::empty(),
                    num_vars as nat,
                ) && current_sum@ == hypercube_sum(
                    terms,
                    fp_views(challenges@.take(round as int)),
                    (num_vars - round) as nat,
                ),
            decreases num_vars - round,
        {
            let uni = prover.get_next_polynomial();
            let sum_at_endpoints = uni.evaluate(Fp::zero()).add(uni.evaluate(Fp::one()));
            proof {
                // The endpoint sum is, by construction, the hypercube sum
                // entering this round.
                let bound = fp_views(challenges@.take(round as int));
                assert(fp_views(prover.challenges@) == bound);
                assert(sum_at_endpoints@ == hypercube_sum(terms, bound, (num_vars - round) as nat));
                if round == 0 {
                    assert(bound =~= Seq::<int>::empty());
                }
                lemma_fp_eq(sum_at_endpoints, current_sum);
            }
            if sum_at_endpoints != current_sum {
                return false;
            }
            let challenge = challenges[round];
            current_sum = uni.evaluate(challenge);
            prover.receive_challenge(challenge);
            self.values_so_far.push(challenge);
            self.current_round = self.current_round + 1;
            proof {
                assert(challenges@.take(round + 1) =~= challenges@.take(round as int).push(
                    challenge,
                ));
                assert(fp_views(challenges@.take(round as int)).push(challenge@) =~= fp_views(
                    challenges@.take(round + 1),
                ));
            }
            round = round + 1;
        }
        proof {
            assert(challenges@.take(num_vars as int) =~= challenges@);
        }
        let final_eval = self.polynomial.evaluate(&self.values_so_far);
        proof {
            lemma_fp_eq(final_eval, current_sum);
            if num_vars == 0 {
                assert(fp_views(challenges@) =~= Seq::<int>::empty());
            } else {
                assert(current_sum@ == hypercube_sum(terms, fp_views(challenges@), 0));
            }
        }
        final_eval == current_sum
    }
}

} // verus!
