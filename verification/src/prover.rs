//! The Prover's side of the protocol: it holds the polynomial, produces
//! each round's univariate polynomial, and records the challenges received.

use crate::field::Fp;
use crate::polynomial::{fp_views, hypercube_sum, upoly_eval, MultiVariatePolynomial,
    UnivariatePolynomial};
use vstd::prelude::*;

verus! {

/// The Prover's transcript state: the fixed polynomial, the round index,
/// and the ordered challenges received so far. A round polynomial must be
/// produced before each challenge is received.
pub struct Prover {
    pub polynomial: MultiVariatePolynomial,
    pub current_round: usize,
    pub challenges: Vec<Fp>,
    pub awaiting_challenge: bool,
}

impl Prover {
    /// The Prover's state invariant: one challenge has been recorded per
    /// completed round, and no round beyond the number of variables has
    /// been started.
    pub open spec fn wf(&self) -> bool {
        &&& self.polynomial.wf()
        &&& self.challenges@.len() == self.current_round
        &&& self.current_round <= self.polynomial.num_variables
        &&& (self.awaiting_challenge ==> self.current_round < self.polynomial.num_variables)
    }

    pub fn new(polynomial: MultiVariatePolynomial) -> (r: Self)
        requires
            polynomial.wf(),
        ensures
            r.wf(),
            r.polynomial == polynomial,
            r.current_round == 0,
            r.challenges@ =~= Seq::<Fp>::empty(),
            !r.awaiting_challenge,
    {
        Prover { polynomial, current_round: 0, challenges: Vec::new(), awaiting_challenge: false }
    }

    /// Produces the current round's univariate polynomial: the hypercube
    /// sum of the polynomial with the earlier variables bound to the
    /// recorded challenges and the current variable left symbolic. Exactly
    /// one challenge must then be received before the next call.
    pub fn get_next_polynomial(&mut self) -> (r: UnivariatePolynomial)
        requires
            old(self).wf(),
            !old(self).awaiting_challenge,
            old(self).current_round < old(self).polynomial.num_variables,
        ensures
            final(self).wf(),
            final(self).polynomial == old(self).polynomial,
            final(self).challenges == old(self).challenges,
            final(self).current_round == old(self).current_round,
            final(self).awaiting_challenge,
            forall|x: int| #[trigger]
                upoly_eval(r@, x) == hypercube_sum(
                    old(self).polynomial@,
                    fp_views(old(self).challenges@).push(x),
                    (old(self).polynomial.num_variables - old(self).current_round - 1) as nat,
                ),
    {
        let uni = self.polynomial.get_univariate_at_round(self.current_round, &self.challenges);
        self.awaiting_challenge = true;
        uni
    }

    /// Records the Verifier's challenge for the pending round and advances
    /// the round index.
    pub fn receive_challenge(&mut self, value: Fp)
        requires
            old(self).wf(),
            old(self).awaiting_challenge,
        ensures
            final(self).wf(),
            final(self).polynomial == old(self).polynomial,
            final(self).challenges@ == old(self).challenges@.push(value),
            final(self).current_round == old(self).current_round + 1,
            !final(self).awaiting_challenge,
    {
        self.challenges.push(value);
        self.current_round = self.current_round + 1;
        self.awaiting_challenge = false;
    }
}

} // verus!
