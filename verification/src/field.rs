//! The finite field that all protocol arithmetic is performed in: the
//! integers modulo the prime `FIELD_MODULUS`.

use vstd::arithmetic::div_mod::{lemma_add_mod_noop_right, lemma_mod_bound, lemma_small_mod};
use vstd::arithmetic::div_mod::{lemma_mul_mod_noop_left, lemma_mul_mod_noop_right};
use vstd::arithmetic::mul::{lemma_mul_is_associative, lemma_mul_is_commutative};
use vstd::prelude::*;

verus! {

/// The prime modulus of the field: `2^64 - 2^32 + 1`.
pub const FIELD_MODULUS: u64 = 18446744069414584321;

/// Field addition on representatives: the sum reduced modulo the prime.
pub open spec fn fadd(a: int, b: int) -> int {
    (a + b) % (FIELD_MODULUS as int)
}

/// Field multiplication on representatives: the product reduced modulo the prime.
pub open spec fn fmul(a: int, b: int) -> int {
    (a * b) % (FIELD_MODULUS as int)
}

/// Field exponentiation by a non-negative integer.
pub open spec fn fpow(a: int, e: nat) -> int
    decreases e,
{
    if e == 0 {
        1int
    } else {
        fmul(a, fpow(a, (e - 1) as nat))
    }
}

/// An element of the finite field, held as its canonical representative
/// in `0 .. FIELD_MODULUS`.
#[derive(Clone, Copy, Debug, PartialEq, Eq, Structural)]
pub struct Fp {
    value: u64,
}

impl View for Fp {
    type V = int;

    closed spec fn view(&self) -> int {
        self.value as int
    }
}

impl Fp {
    #[verifier::type_invariant]
    spec fn type_inv(self) -> bool {
        self.value < FIELD_MODULUS
    }

    /// The additive identity.
    pub fn zero() -> (r: Fp)
        ensures
            r@ == 0,
    {
        Fp { value: 0 }
    }

    /// The multiplicative identity.
    pub fn one() -> (r: Fp)
        ensures
            r@ == 1,
    {
        Fp { value: 1 }
    }

    /// The field element represented by `x`, reduced modulo the prime.
    pub fn from_u64(x: u64) -> (r: Fp)
        ensures
            r@ == x as int % FIELD_MODULUS as int,
    {
        Fp { value: x % FIELD_MODULUS }
    }

    /// Field addition.
    pub fn add(self, rhs: Fp) -> (r: Fp)
        ensures
            r@ == fadd(self@, rhs@),
    {
        let sum: u128 = self.value as u128 + rhs.value as u128;
        let reduced: u128 = sum % (FIELD_MODULUS as u128);
        proof {
            lemma_mod_bound(sum as int, FIELD_MODULUS as int);
        }
        Fp { value: reduced as u64 }
    }

    /// Field multiplication.
    pub fn mul(self, rhs: Fp) -> (r: Fp)
        ensures
            r@ == fmul(self@, rhs@),
    {
        proof {
            assert((self.value as int) * (rhs.value as int) <= (u64::MAX as int) * (u64::MAX
                as int)) by (nonlinear_arith)
                requires
                    self.value as int <= u64::MAX as int,
                    rhs.value as int <= u64::MAX as int,
            ;
        }
        let product: u128 = self.value as u128 * rhs.value as u128;
        let reduced: u128 = product % (FIELD_MODULUS as u128);
        proof {
            lemma_mod_bound(product as int, FIELD_MODULUS as int);
        }
        Fp { value: reduced as u64 }
    }

    /// Field exponentiation by a non-negative integer exponent.
    pub fn pow(self, e: u64) -> (r: Fp)
        ensures
            r@ == fpow(self@, e as nat),
    {
        let mut r = Fp::one();
        let mut i: u64 = 0;
        while i < e
            invariant
                i <= e,
                r@ == fpow(self@, i as nat),
            decreases e - i,
        {
            r = self.mul(r);
            i = i + 1;
        }
        r
    }
}

/// Two field elements are equal exactly when they represent the same residue.
pub proof fn lemma_fp_eq(a: Fp, b: Fp)
    ensures
        (a == b) <==> (a@ == b@),
{
}

/// Field addition is associative.
pub proof fn lemma_fadd_assoc(a: int, b: int, c: int)
    ensures
        fadd(fadd(a, b), c) == fadd(a, fadd(b, c)),
{
    let m = FIELD_MODULUS as int;
    lemma_add_mod_noop_right(c, a + b, m);
    lemma_add_mod_noop_right(a, b + c, m);
}

/// Adding the additive identity to a reduced representative changes nothing.
pub proof fn lemma_fadd_zero(a: int)
    requires
        0 <= a < FIELD_MODULUS,
    ensures
        fadd(a, 0) == a,
        fadd(0, a) == a,
{
    lemma_small_mod(a as nat, FIELD_MODULUS as nat);
}

/// Field multiplication is commutative.
pub proof fn lemma_fmul_comm(a: int, b: int)
    ensures
        fmul(a, b) == fmul(b, a),
{
    lemma_mul_is_commutative(a, b);
}

/// Field multiplication is associative.
pub proof fn lemma_fmul_assoc(a: int, b: int, c: int)
    ensures
        fmul(fmul(a, b), c) == fmul(a, fmul(b, c)),
{
    let m = FIELD_MODULUS as int;
    lemma_mul_mod_noop_left(a * b, c, m);
    lemma_mul_mod_noop_right(a, b * c, m);
    lemma_mul_is_associative(a, b, c);
}

} // verus!
