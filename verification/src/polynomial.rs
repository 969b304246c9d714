//! Sparse multivariate and univariate polynomials over the field, the
//! specification of their evaluation, and the derivation of the per-round
//! univariate polynomial by summation over the boolean hypercube.

use crate::field::{fadd, fmul, fpow, lemma_fadd_assoc, lemma_fadd_zero, lemma_fmul_assoc,
    lemma_fmul_comm, Fp, FIELD_MODULUS};
use vstd::arithmetic::div_mod::lemma_mod_bound;
use vstd::prelude::*;

verus! {

/// The residues represented by a sequence of field elements.
pub open spec fn fp_views(s: Seq<Fp>) -> Seq<int> {
    s.map_values(|f: Fp| f@)
}

/// The mathematical model of a univariate term list: pairs of exponent and
/// coefficient residue.
pub open spec fn uni_terms(s: Seq<(u64, Fp)>) -> Seq<(u64, int)> {
    s.map_values(|t: (u64, Fp)| (t.0, t.1@))
}

/// The mathematical model of a multivariate term list: pairs of exponent
/// vector and coefficient residue.
pub open spec fn multi_terms(s: Seq<(Vec<u64>, Fp)>) -> Seq<(Seq<u64>, int)> {
    s.map_values(|t: (Vec<u64>, Fp)| (t.0@, t.1@))
}

/// The product of `pt[j] ^ e[j]` over the indices `from .. e.len()`.
pub open spec fn prod_pows_from(e: Seq<u64>, pt: Seq<int>, from: nat) -> int
    decreases e.len() - from,
{
    if from >= e.len() {
        1int
    } else {
        fmul(fpow(pt[from as int], e[from as int] as nat), prod_pows_from(e, pt, from + 1))
    }
}

/// The product of `pt[j] ^ e[j]` over the indices `from .. e.len()`, with
/// the index `skip` left out.
pub open spec fn prod_pows_skip(e: Seq<u64>, pt: Seq<int>, skip: int, from: nat) -> int
    decreases e.len() - from,
{
    if from >= e.len() {
        1int
    } else if from == skip {
        prod_pows_skip(e, pt, skip, from + 1)
    } else {
        fmul(fpow(pt[from as int], e[from as int] as nat), prod_pows_skip(e, pt, skip, from + 1))
    }
}

/// The value of one monomial at a point: its coefficient times the product
/// of each point coordinate raised to the monomial's exponent there.
pub open spec fn mono_eval(c: int, e: Seq<u64>, pt: Seq<int>) -> int {
    fmul(c, prod_pows_from(e, pt, 0))
}

/// The value of a multivariate polynomial at a point: the field sum of its
/// monomials' values.
pub open spec fn mpoly_eval(terms: Seq<(Seq<u64>, int)>, pt: Seq<int>) -> int
    decreases terms.len(),
{
    if terms.len() == 0 {
        0int
    } else {
        fadd(mpoly_eval(terms.drop_last(), pt), mono_eval(terms.last().1, terms.last().0, pt))
    }
}

/// The value of a univariate polynomial at `x`: the field sum of
/// `coefficient * x ^ exponent` over its terms.
pub open spec fn upoly_eval(terms: Seq<(u64, int)>, x: int) -> int
    decreases terms.len(),
{
    if terms.len() == 0 {
        0int
    } else {
        fadd(
            upoly_eval(terms.drop_last(), x),
            fmul(terms.last().1, fpow(x, terms.last().0 as nat)),
        )
    }
}

/// The sum of the polynomial's values over all boolean completions of the
/// point `prefix`: the remaining `k` coordinates each range over `{0, 1}`.
pub open spec fn hypercube_sum(terms: Seq<(Seq<u64>, int)>, prefix: Seq<int>, k: nat) -> int
    decreases k,
{
    if k == 0 {
        mpoly_eval(terms, prefix)
    } else {
        fadd(
            hypercube_sum(terms, prefix.push(0), (k - 1) as nat),
            hypercube_sum(terms, prefix.push(1), (k - 1) as nat),
        )
    }
}

/// Well-formed term lists for `n` variables: every exponent vector has one
/// entry per variable, and no exponent vector occurs twice.
pub open spec fn wf_terms(terms: Seq<(Seq<u64>, int)>, n: nat) -> bool {
    &&& forall|k: int| 0 <= k < terms.len() ==> (#[trigger] terms[k]).0.len() == n
    &&& forall|j: int, k: int|
        0 <= j < k < terms.len() ==> (#[trigger] terms[j]).0 != (#[trigger] terms[k]).0
}

/// A sparse multivariate polynomial over the field: a list of monomials,
/// each an exponent vector (one exponent per variable) with its coefficient.
/// Exponent vectors absent from the list have coefficient zero.
pub struct MultiVariatePolynomial {
    pub coefficients: Vec<(Vec<u64>, Fp)>,
    pub num_variables: usize,
}

/// A sparse univariate polynomial over the field: a list of exponents with
/// their coefficients.
#[derive(Clone)]
pub struct UnivariatePolynomial {
    pub coefficients: Vec<(u64, Fp)>,
}

impl View for MultiVariatePolynomial {
    type V = Seq<(Seq<u64>, int)>;

    open spec fn view(&self) -> Seq<(Seq<u64>, int)> {
        multi_terms(self.coefficients@)
    }
}

impl View for UnivariatePolynomial {
    type V = Seq<(u64, int)>;

    open spec fn view(&self) -> Seq<(u64, int)> {
        uni_terms(self.coefficients@)
    }
}

impl MultiVariatePolynomial {
    /// The structural invariant: every exponent vector has exactly one
    /// entry per variable, and exponent vectors are unique.
    pub open spec fn wf(&self) -> bool {
        wf_terms(self@, self.num_variables as nat)
    }

    pub fn new(coefficients: Vec<(Vec<u64>, Fp)>, num_variables: usize) -> (r: Self)
        requires
            wf_terms(multi_terms(coefficients@), num_variables as nat),
        ensures
            r@ == multi_terms(coefficients@),
            r.num_variables == num_variables,
            r.wf(),
    {
        Self { coefficients, num_variables }
    }

    /// The full polynomial evaluated at one field value per variable. The
    /// result is fully determined by the polynomial's and the point's
    /// mathematical content, so repeated calls on equal inputs agree.
    pub fn evaluate(&self, point: &Vec<Fp>) -> (r: Fp)
        requires
            self.wf(),
            point@.len() == self.num_variables,
        ensures
            r@ == mpoly_eval(self@, fp_views(point@)),
    {
        let ghost pts = fp_views(point@);
        let mut result = Fp::zero();
        let mut k: usize = 0;
        while k < self.coefficients.len()
            invariant
                k <= self.coefficients@.len(),
                self.wf(),
                point@.len() == self.num_variables,
                pts == fp_views(point@),
                result@ == mpoly_eval(self@.take(k as int), pts),
            decreases self.coefficients@.len() - k,
        {
            let degrees: &Vec<u64> = &self.coefficients[k].0;
            let coeff: Fp = self.coefficients[k].1;
            assert(self@[k as int] == (degrees@, coeff@));
            assert(degrees@.len() == self.num_variables);
            let mut prod = Fp::one();
            let mut j: usize = self.num_variables;
            while j > 0
                invariant
                    j <= self.num_variables,
                    degrees@.len() == self.num_variables,
                    point@.len() == self.num_variables,
                    pts == fp_views(point@),
                    prod@ == prod_pows_from(degrees@, pts, j as nat),
                decreases j,
            {
                j = j - 1;
                prod = point[j].pow(degrees[j]).mul(prod);
            }
            let term = coeff.mul(prod);
            assert(term@ == mono_eval(self@[k as int].1, self@[k as int].0, pts));
            result = result.add(term);
            proof {
                let taken = self@.take(k + 1);
                assert(taken.drop_last() =~= self@.take(k as int));
                assert(taken.last() == self@[k as int]);
            }
            k = k + 1;
        }
        proof {
            assert(self@.take(self.coefficients@.len() as int) =~= self@);
        }
        result
    }

    /// The protocol's reduction step for round `i`: with the first `i`
    /// variables fixed to `previous_values`, the univariate polynomial in
    /// variable `i` obtained by summing over all boolean assignments of the
    /// later variables. Its value at every `x` equals the hypercube sum of
    /// the polynomial over the points `previous_values ++ [x] ++ suffix`.
    pub fn get_univariate_at_round(&self, i: usize, previous_values: &Vec<Fp>) -> (r:
        UnivariatePolynomial)
        requires
            self.wf(),
            i < self.num_variables,
            previous_values@.len() == i,
        ensures
            forall|x: int| #[trigger]
                upoly_eval(r@, x) == hypercube_sum(
                    self@,
                    fp_views(previous_values@).push(x),
                    (self.num_variables - i - 1) as nat,
                ),
    {
        let tail: Vec<Fp> = Vec::new();
        proof {
            assert(fp_views(tail@) =~= Seq::<int>::empty());
            assert(forall|x: int|
                fp_views(previous_values@).push(x) + fp_views(tail@) =~= fp_views(
                    previous_values@,
                ).push(x));
        }
        let terms = self.round_terms(i, previous_values, &tail);
        UnivariatePolynomial { coefficients: terms }
    }

    /// Builds the round polynomial's terms for every boolean completion of
    /// `tail`, recursing once with `0` and once with `1` appended until the
    /// assignment of the variables after `i` is complete.
    fn round_terms(&self, i: usize, previous_values: &Vec<Fp>, tail: &Vec<Fp>) -> (r: Vec<
        (u64, Fp),
    >)
        requires
            self.wf(),
            i < self.num_variables,
            previous_values@.len() == i,
            i + 1 + tail@.len() <= self.num_variables,
        ensures
            forall|x: int| #[trigger]
                upoly_eval(uni_terms(r@), x) == hypercube_sum(
                    self@,
                    fp_views(previous_values@).push(x) + fp_views(tail@),
                    (self.num_variables - i - 1 - tail@.len()) as nat,
                ),
        decreases self.num_variables - i - 1 - tail@.len(),
    {
        let n = self.num_variables;
        if i + 1 + tail.len() < n {
            let mut low = tail.clone();
            low.push(Fp::zero());
            let r0 = self.round_terms(i, previous_values, &low);
            let mut high = tail.clone();
            high.push(Fp::one());
            let r1 = self.round_terms(i, previous_values, &high);
            let mut r = r0;
            let mut rest = r1;
            let ghost r0_seq = r@;
            let ghost r1_seq = rest@;
            r.append(&mut rest);
            proof {
                assert(fp_views(low@) =~= fp_views(tail@).push(0));
                assert(fp_views(high@) =~= fp_views(tail@).push(1));
                assert(uni_terms(r@) =~= uni_terms(r0_seq) + uni_terms(r1_seq));
                let k = (n - i - 1 - tail@.len()) as nat;
                assert forall|x: int| #[trigger]
                    upoly_eval(uni_terms(r@), x) == hypercube_sum(
                        self@,
                        fp_views(previous_values@).push(x) + fp_views(tail@),
                        k,
                    ) by {
                    let prefix = fp_views(previous_values@).push(x) + fp_views(tail@);
                    lemma_upoly_eval_concat(uni_terms(r0_seq), uni_terms(r1_seq), x);
                    assert(fp_views(previous_values@).push(x) + fp_views(low@) =~= prefix.push(0));
                    assert(fp_views(previous_values@).push(x) + fp_views(high@) =~= prefix.push(1));
                }
            }
            r
        } else {
            // The assignment of the variables after `i` is complete: one
            // univariate term per monomial.
            let ghost pt0 = fp_views(previous_values@).push(0) + fp_views(tail@);
            let mut r: Vec<(u64, Fp)> = Vec::new();
            let mut k: usize = 0;
            while k < self.coefficients.len()
                invariant
                    k <= self.coefficients@.len(),
                    self.wf(),
                    i < n,
                    n == self.num_variables,
                    previous_values@.len() == i,
                    i + 1 + tail@.len() == n,
                    pt0 == fp_views(previous_values@).push(0) + fp_views(tail@),
                    forall|x: int| #[trigger]
                        upoly_eval(uni_terms(r@), x) == mpoly_eval(
                            self@.take(k as int),
                            fp_views(previous_values@).push(x) + fp_views(tail@),
                        ),
                decreases self.coefficients@.len() - k,
            {
                let degrees: &Vec<u64> = &self.coefficients[k].0;
                let coeff: Fp = self.coefficients[k].1;
                assert(self@[k as int] == (degrees@, coeff@));
                assert(degrees@.len() == n);
                let mut prod = Fp::one();
                let mut j: usize = n;
                while j > 0
                    invariant
                        j <= n,
                        i < n,
                        degrees@.len() == n,
                        previous_values@.len() == i,
                        i + 1 + tail@.len() == n,
                        pt0 == fp_views(previous_values@).push(0) + fp_views(tail@),
                        prod@ == prod_pows_skip(degrees@, pt0, i as int, j as nat),
                    decreases j,
                {
                    j = j - 1;
                    if j != i {
                        let pv: Fp = if j < i {
                            previous_values[j]
                        } else {
                            tail[j - i - 1]
                        };
                        assert(pt0[j as int] == pv@);
                        prod = pv.pow(degrees[j]).mul(prod);
                    }
                }
                let term_coeff = coeff.mul(prod);
                let deg_i: u64 = degrees[i];
                let ghost old_r = r@;
                r.push((deg_i, term_coeff));
                proof {
                    assert(uni_terms(r@) =~= uni_terms(old_r).push((deg_i, term_coeff@)));
                    assert forall|x: int| #[trigger]
                        upoly_eval(uni_terms(r@), x) == mpoly_eval(
                            self@.take(k + 1),
                            fp_views(previous_values@).push(x) + fp_views(tail@),
                        ) by {
                        let ptx = fp_views(previous_values@).push(x) + fp_views(tail@);
                        let ut = uni_terms(r@);
                        assert(ut.drop_last() =~= uni_terms(old_r));
                        assert(ut.last() == (deg_i, term_coeff@));
                        // The pushed term's value equals the monomial's value at `ptx`.
                        lemma_prod_skip_point_agree(degrees@, pt0, ptx, i as int, 0);
                        lemma_prod_pull_out(degrees@, ptx, i as int, 0);
                        assert(ptx[i as int] == x);
                        let sp = prod_pows_skip(degrees@, ptx, i as int, 0);
                        let fx = fpow(x, deg_i as nat);
                        lemma_fmul_assoc(coeff@, sp, fx);
                        lemma_fmul_comm(sp, fx);
                        assert(fmul(term_coeff@, fx) == mono_eval(coeff@, degrees@, ptx));
                        assert(upoly_eval(ut, x) == fadd(
                            upoly_eval(uni_terms(old_r), x),
                            fmul(term_coeff@, fx),
                        ));
                        assert(upoly_eval(uni_terms(old_r), x) == mpoly_eval(
                            self@.take(k as int),
                            ptx,
                        ));
                        let taken = self@.take(k + 1);
                        assert(taken.drop_last() =~= self@.take(k as int));
                        assert(taken.last() == self@[k as int]);
                        assert(mpoly_eval(taken, ptx) == fadd(
                            mpoly_eval(self@.take(k as int), ptx),
                            mono_eval(coeff@, degrees@, ptx),
                        ));
                    }
                }
                k = k + 1;
            }
            proof {
                assert(self@.take(self.coefficients@.len() as int) =~= self@);
            }
            r
        }
    }
}

impl Clone for MultiVariatePolynomial {
    /// A deep copy with the same mathematical content, so that Prover and
    /// Verifier can each hold their own instance of one polynomial.
    fn clone(&self) -> (res: Self)
        ensures
            res@ == self@,
            res.num_variables == self.num_variables,
    {
        let mut coefficients: Vec<(Vec<u64>, Fp)> = Vec::new();
        let mut k: usize = 0;
        while k < self.coefficients.len()
            invariant
                k <= self.coefficients@.len(),
                multi_terms(coefficients@) == multi_terms(self.coefficients@).take(k as int),
            decreases self.coefficients@.len() - k,
        {
            let degrees: Vec<u64> = self.coefficients[k].0.clone();
            let coeff: Fp = self.coefficients[k].1;
            proof {
                assert(degrees@ =~= self.coefficients@[k as int].0@);
            }
            let ghost old_terms = multi_terms(coefficients@);
            let ghost entry = (degrees@, coeff@);
            coefficients.push((degrees, coeff));
            proof {
                assert(multi_terms(coefficients@) =~= old_terms.push(entry));
                assert(entry == multi_terms(self.coefficients@)[k as int]);
                assert(multi_terms(self.coefficients@).take(k + 1) =~= multi_terms(
                    self.coefficients@,
                ).take(k as int).push(entry));
            }
            k = k + 1;
        }
        proof {
            assert(multi_terms(self.coefficients@).take(self.coefficients@.len() as int)
                =~= multi_terms(self.coefficients@));
        }
        MultiVariatePolynomial { coefficients, num_variables: self.num_variables }
    }
}

impl UnivariatePolynomial {
    /// The univariate polynomial evaluated at a single field value.
    pub fn evaluate(&self, point: Fp) -> (r: Fp)
        ensures
            r@ == upoly_eval(self@, point@),
    {
        let mut result = Fp::zero();
        let mut k: usize = 0;
        while k < self.coefficients.len()
            invariant
                k <= self.coefficients@.len(),
                result@ == upoly_eval(self@.take(k as int), point@),
            decreases self.coefficients@.len() - k,
        {
            let deg: u64 = self.coefficients[k].0;
            let coeff: Fp = self.coefficients[k].1;
            assert(self@[k as int] == (deg, coeff@));
            let term = coeff.mul(point.pow(deg));
            result = result.add(term);
            proof {
                let taken = self@.take(k + 1);
                assert(taken.drop_last() =~= self@.take(k as int));
                assert(taken.last() == self@[k as int]);
            }
            k = k + 1;
        }
        proof {
            assert(self@.take(self.coefficients@.len() as int) =~= self@);
        }
        result
    }
}

/// The value of every univariate polynomial lies in `0 .. FIELD_MODULUS`.
proof fn lemma_upoly_eval_bound(terms: Seq<(u64, int)>, x: int)
    ensures
        0 <= upoly_eval(terms, x) < FIELD_MODULUS,
    decreases terms.len(),
{
    if terms.len() == 0 {
    } else {
        lemma_mod_bound(
            upoly_eval(terms.drop_last(), x) + fmul(terms.last().1, fpow(x, terms.last().0 as nat)),
            FIELD_MODULUS as int,
        );
    }
}

/// Evaluating the concatenation of two term lists gives the field sum of
/// their separate values.
proof fn lemma_upoly_eval_concat(a: Seq<(u64, int)>, b: Seq<(u64, int)>, x: int)
    ensures
        upoly_eval(a + b, x) == fadd(upoly_eval(a, x), upoly_eval(b, x)),
    decreases b.len(),
{
    if b.len() == 0 {
        assert(a + b =~= a);
        lemma_upoly_eval_bound(a, x);
        lemma_fadd_zero(upoly_eval(a, x));
    } else {
        lemma_upoly_eval_concat(a, b.drop_last(), x);
        assert((a + b).drop_last() =~= a + b.drop_last());
        assert((a + b).last() == b.last());
        lemma_fadd_assoc(
            upoly_eval(a, x),
            upoly_eval(b.drop_last(), x),
            fmul(b.last().1, fpow(x, b.last().0 as nat)),
        );
    }
}

/// A product that skips the index `skip` reads no other index differently:
/// it is the same over any two points that agree away from `skip`.
proof fn lemma_prod_skip_point_agree(
    e: Seq<u64>,
    pt1: Seq<int>,
    pt2: Seq<int>,
    skip: int,
    from: nat,
)
    requires
        forall|j: int| 0 <= j < e.len() && j != skip ==> pt1[j] == pt2[j],
    ensures
        prod_pows_skip(e, pt1, skip, from) == prod_pows_skip(e, pt2, skip, from),
    decreases e.len() - from,
{
    if from >= e.len() {
    } else {
        lemma_prod_skip_point_agree(e, pt1, pt2, skip, from + 1);
    }
}

/// Beyond the skipped index, the skipping product and the full product
/// coincide.
proof fn lemma_prod_skip_beyond(e: Seq<u64>, pt: Seq<int>, skip: int, from: nat)
    requires
        from > skip,
    ensures
        prod_pows_skip(e, pt, skip, from) == prod_pows_from(e, pt, from),
    decreases e.len() - from,
{
    if from >= e.len() {
    } else {
        lemma_prod_skip_beyond(e, pt, skip, from + 1);
    }
}

/// The factor at index `i` can be pulled out of the product: the full
/// product equals that factor times the product that skips `i`.
proof fn lemma_prod_pull_out(e: Seq<u64>, pt: Seq<int>, i: int, from: nat)
    requires
        from <= i < e.len(),
    ensures
        prod_pows_from(e, pt, from) == fmul(
            fpow(pt[i], e[i] as nat),
            prod_pows_skip(e, pt, i, from),
        ),
    decreases i - from,
{
    if from == i {
        lemma_prod_skip_beyond(e, pt, i, from + 1);
    } else {
        lemma_prod_pull_out(e, pt, i, from + 1);
        let ffrom = fpow(pt[from as int], e[from as int] as nat);
        let fi = fpow(pt[i], e[i] as nat);
        let rest = prod_pows_skip(e, pt, i, from + 1);
        lemma_fmul_assoc(ffrom, fi, rest);
        lemma_fmul_comm(ffrom, fi);
        lemma_fmul_assoc(fi, ffrom, rest);
    }
}

/// Round polynomial endpoint identity: an honest round polynomial `g` —
/// one whose value at every `x` is the hypercube sum of the polynomial
/// with the bound variables fixed, the round's variable set to `x`, and
/// `k - 1` later variables summed out — satisfies `g(0) + g(1) ==` the
/// target sum entering the round, the hypercube sum over all `k` still
/// unbound variables.
pub proof fn lemma_round_endpoint_identity(
    g: Seq<(u64, int)>,
    terms: Seq<(Seq<u64>, int)>,
    bound: Seq<int>,
    k: nat,
)
    requires
        k >= 1,
        forall|x: int| #[trigger]
            upoly_eval(g, x) == hypercube_sum(terms, bound.push(x), (k - 1) as nat),
    ensures
        fadd(upoly_eval(g, 0), upoly_eval(g, 1)) == hypercube_sum(terms, bound, k),
{
    assert(upoly_eval(g, 0) == hypercube_sum(terms, bound.push(0), (k - 1) as nat));
    assert(upoly_eval(g, 1) == hypercube_sum(terms, bound.push(1), (k - 1) as nat));
}

/// Final evaluation agreement: the last round's polynomial `g` — one whose
/// value at every `x` is the polynomial's value with all earlier variables
/// bound and none left to sum — evaluated at the last challenge equals the
/// polynomial's direct evaluation at the full challenge point.
pub proof fn lemma_final_evaluation_agreement(
    g: Seq<(u64, int)>,
    terms: Seq<(Seq<u64>, int)>,
    bound: Seq<int>,
    r: int,
)
    requires
        forall|x: int| #[trigger] upoly_eval(g, x) == hypercube_sum(terms, bound.push(x), 0),
    ensures
        upoly_eval(g, r) == mpoly_eval(terms, bound.push(r)),
{
    assert(upoly_eval(g, r) == hypercube_sum(terms, bound.push(r), 0));
}

} // verus!
