use sumcheck::{Fp, MultiVariatePolynomial, Prover, UnivariatePolynomial, Verifier, FIELD_MODULUS};

fn fp(x: u64) -> Fp {
    Fp::from_u64(x)
}

/// The polynomial `f(x, y) = x + 2y` over two variables.
fn x_plus_2y() -> MultiVariatePolynomial {
    let coeffs = vec![(vec![1, 0], fp(1)), (vec![0, 1], fp(2))];
    MultiVariatePolynomial::new(coeffs, 2)
}

#[test]
fn test_sumcheck_protocol() {
    let polynomial = x_plus_2y();

    // f(0,0) + f(0,1) + f(1,0) + f(1,1) = 0 + 2 + 1 + 3 = 6
    let true_sum = fp(6);

    let mut prover = Prover::new(polynomial.clone());
    let mut verifier = Verifier::new(polynomial, true_sum);

    assert!(verifier.verify(&mut prover, &vec![fp(2), fp(2)]));
}

#[test]
fn test_rejects_false_claim() {
    let polynomial = x_plus_2y();
    let mut prover = Prover::new(polynomial.clone());
    let mut verifier = Verifier::new(polynomial, fp(7));
    assert!(!verifier.verify(&mut prover, &vec![fp(2), fp(2)]));
}

#[test]
fn test_accepts_for_any_challenges() {
    let challenge_sets = vec![
        vec![fp(0), fp(0)],
        vec![fp(1), fp(1)],
        vec![fp(12345), fp(987654321)],
        vec![fp(FIELD_MODULUS - 1), fp(2)],
    ];
    for challenges in challenge_sets {
        let polynomial = x_plus_2y();
        let mut prover = Prover::new(polynomial.clone());
        let mut verifier = Verifier::new(polynomial, fp(6));
        assert!(verifier.verify(&mut prover, &challenges));
    }
}

#[test]
fn test_round_polynomial_endpoints() {
    let polynomial = x_plus_2y();

    // Round 0: g0(0) + g0(1) must equal the true hypercube sum, 6.
    let g0 = polynomial.get_univariate_at_round(0, &vec![]);
    let endpoint_sum = g0.evaluate(fp(0)).add(g0.evaluate(fp(1)));
    assert_eq!(endpoint_sum, fp(6));

    // Round 1, after binding x to 2: g1(0) + g1(1) must equal g0(2).
    let r0 = fp(2);
    let g1 = polynomial.get_univariate_at_round(1, &vec![r0]);
    let endpoint_sum_1 = g1.evaluate(fp(0)).add(g1.evaluate(fp(1)));
    assert_eq!(endpoint_sum_1, g0.evaluate(r0));
}

#[test]
fn test_final_evaluation_agreement() {
    let polynomial = x_plus_2y();
    let r0 = fp(5);
    let r1 = fp(9);
    let g1 = polynomial.get_univariate_at_round(1, &vec![r0]);
    // The last round polynomial evaluated at the last challenge equals the
    // direct evaluation at the full challenge point.
    assert_eq!(g1.evaluate(r1), polynomial.evaluate(&vec![r0, r1]));
}

#[test]
fn test_evaluate_is_pure() {
    let polynomial = x_plus_2y();
    let point = vec![fp(17), fp(23)];
    assert_eq!(polynomial.evaluate(&point), polynomial.evaluate(&point));
}

#[test]
fn test_evaluate_concrete_point() {
    let polynomial = x_plus_2y();
    // f(3, 4) = 3 + 8 = 11
    assert_eq!(polynomial.evaluate(&vec![fp(3), fp(4)]), fp(11));
}

#[test]
fn test_constant_polynomial_zero_rounds() {
    // A constant polynomial has no variables: zero rounds run and the final
    // check compares the constant against the claim directly.
    let constant = MultiVariatePolynomial::new(vec![(vec![], fp(5))], 0);
    let mut prover = Prover::new(constant.clone());
    let mut verifier = Verifier::new(constant, fp(5));
    assert!(verifier.verify(&mut prover, &vec![]));

    let constant = MultiVariatePolynomial::new(vec![(vec![], fp(5))], 0);
    let mut prover = Prover::new(constant.clone());
    let mut verifier = Verifier::new(constant, fp(4));
    assert!(!verifier.verify(&mut prover, &vec![]));
}

#[test]
fn test_empty_polynomial_sums_to_zero() {
    let zero_poly = MultiVariatePolynomial::new(vec![], 2);
    let mut prover = Prover::new(zero_poly.clone());
    let mut verifier = Verifier::new(zero_poly, fp(0));
    assert!(verifier.verify(&mut prover, &vec![fp(8), fp(3)]));

    let zero_poly = MultiVariatePolynomial::new(vec![], 2);
    let mut prover = Prover::new(zero_poly.clone());
    let mut verifier = Verifier::new(zero_poly, fp(1));
    assert!(!verifier.verify(&mut prover, &vec![fp(8), fp(3)]));
}

#[test]
fn test_higher_degree_polynomial() {
    // f(x, y, z) = x^2 * y + 3z; its hypercube sum is 2 + 12 = 14.
    let coeffs = vec![(vec![2, 1, 0], fp(1)), (vec![0, 0, 1], fp(3))];
    let polynomial = MultiVariatePolynomial::new(coeffs, 3);
    let mut prover = Prover::new(polynomial.clone());
    let mut verifier = Verifier::new(polynomial, fp(14));
    assert!(verifier.verify(&mut prover, &vec![fp(7), fp(11), fp(13)]));

    let coeffs = vec![(vec![2, 1, 0], fp(1)), (vec![0, 0, 1], fp(3))];
    let polynomial = MultiVariatePolynomial::new(coeffs, 3);
    let mut prover = Prover::new(polynomial.clone());
    let mut verifier = Verifier::new(polynomial, fp(13));
    assert!(!verifier.verify(&mut prover, &vec![fp(7), fp(11), fp(13)]));
}

#[test]
fn test_mixed_monomials_share_a_degree() {
    // f(x, y) = xy + x: both monomials contribute degree-1 terms to the
    // first round polynomial. Hypercube sum: 0 + 0 + 1 + 2 = 3.
    let coeffs = vec![(vec![1, 1], fp(1)), (vec![1, 0], fp(1))];
    let polynomial = MultiVariatePolynomial::new(coeffs, 2);
    let g0 = polynomial.get_univariate_at_round(0, &vec![]);
    assert_eq!(g0.evaluate(fp(0)).add(g0.evaluate(fp(1))), fp(3));

    let mut prover = Prover::new(polynomial.clone());
    let mut verifier = Verifier::new(polynomial, fp(3));
    assert!(verifier.verify(&mut prover, &vec![fp(6), fp(4)]));
}

#[test]
fn test_univariate_evaluate() {
    // 3 + 2x at x = 5 is 13.
    let uni = UnivariatePolynomial { coefficients: vec![(0, fp(3)), (1, fp(2))] };
    assert_eq!(uni.evaluate(fp(5)), fp(13));
}

#[test]
fn test_field_arithmetic() {
    // Addition wraps at the modulus.
    assert_eq!(fp(FIELD_MODULUS - 1).add(fp(1)), fp(0));
    // Construction reduces modulo the prime.
    assert_eq!(fp(FIELD_MODULUS), fp(0));
    // (p - 1)^2 = p^2 - 2p + 1 = 1 modulo p.
    assert_eq!(fp(FIELD_MODULUS - 1).mul(fp(FIELD_MODULUS - 1)), fp(1));
    // Small exact values.
    assert_eq!(fp(3).mul(fp(4)), fp(12));
    assert_eq!(fp(2).pow(10), fp(1024));
    assert_eq!(fp(9).pow(0), Fp::one());
    assert_eq!(fp(0), Fp::zero());
}
