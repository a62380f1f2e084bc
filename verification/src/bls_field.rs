//! Elements of the BLS12-381 scalar field (the base field of Jubjub), held as four
//! little-endian 64-bit limbs.
use crate::field::{limbs_equal, limbs_greater_than, limbs_value};
use ark_ed_on_bls12_381::Fq;
use ark_ff::{BigInteger256, PrimeField};
use vstd::prelude::*;

verus! {

/// The order of the BLS12-381 scalar field.
pub open spec fn bls_modulus() -> nat {
    52435875175126190479447740508185965837690552500527637822603658699938581184513nat
}

/// (r - 1) / 2 for the BLS12-381 scalar field.
pub open spec fn bls_half_modulus() -> nat {
    26217937587563095239723870254092982918845276250263818911301829349969290592256nat
}

/// What `FpVar::enforce_cmp(self = a, other = b, Greater, false)` asks of two values of this
/// field: both lie in its lower half and `a` is strictly larger than `b`.
pub open spec fn bls_greater_in_lower_half(a: nat, b: nat) -> bool {
    &&& a <= bls_half_modulus()
    &&& b <= bls_half_modulus()
    &&& a > b
}

/// A BLS12-381 scalar field element in canonical form.
#[derive(Clone, Copy, Debug)]
pub struct BlsScalar {
    pub limbs: [u64; 4],
}

impl BlsScalar {
    /// The integer this element stands for.
    pub open spec fn value(&self) -> nat {
        limbs_value(self.limbs)
    }

    /// The limbs encode a canonical residue.
    pub open spec fn wf(&self) -> bool {
        self.value() < bls_modulus()
    }

    /// The element whose value is `n` (what `Fp::from(n)` gives for a `u64`).
    pub fn from_u64(n: u64) -> (r: BlsScalar)
        ensures
            r.value() == n,
            r.wf(),
    {
        BlsScalar { limbs: [n, 0, 0, 0] }
    }

    /// Whether two elements stand for the same integer.
    pub fn equals(&self, other: &BlsScalar) -> (r: bool)
        ensures
            r == (self.value() == other.value()),
    {
        limbs_equal(self.limbs, other.limbs)
    }

    /// Compares the integer values of two elements.
    pub fn is_greater_than(&self, other: &BlsScalar) -> (r: bool)
        ensures
            r == (self.value() > other.value()),
    {
        limbs_greater_than(self.limbs, other.limbs)
    }

    /// Whether the value is at most (r - 1) / 2.
    pub fn is_at_most_half_modulus(&self) -> (r: bool)
        ensures
            r == (self.value() <= bls_half_modulus()),
    {
        let half: [u64; 4] = [0x7fffffff80000000, 0xa9ded2017fff2dff, 0x199cec0404d0ec02, 0x39f6d3a994cebea4];
        assert(limbs_value(half) == bls_half_modulus());
        !limbs_greater_than(self.limbs, half)
    }

    /// The field difference `self - other`, computed by ark-ff.
    pub fn sub(&self, other: &BlsScalar) -> (r: BlsScalar)
        requires
            self.wf(),
            other.wf(),
        ensures
            r.wf(),
            r.value() == (self.value() - other.value()) % (bls_modulus() as int),
    {
        fq381_sub(self, other)
    }
}

/// Decides the ordering constraint `a.enforce_cmp(b, Greater, false)` on concrete values.
pub fn bls_greater_in_lower_half_holds(a: &BlsScalar, b: &BlsScalar) -> (r: bool)
    ensures
        r == bls_greater_in_lower_half(a.value(), b.value()),
{
    a.is_at_most_half_modulus() && b.is_at_most_half_modulus() && a.is_greater_than(b)
}

/// Within the lower half of the field, the circuits' ordering condition is the integer order.
pub proof fn law_bls_lower_half_order(a: nat, b: nat)
    requires
        a <= bls_half_modulus(),
        b <= bls_half_modulus(),
    ensures
        bls_greater_in_lower_half(a, b) <==> a > b,
{
}

/// Subtraction in `ark_ed_on_bls12_381::Fq` (that is, `ark_bls12_381::Fr`; the `Sub` impl of
/// `Fp256`). Trusted: the result is the canonical residue of `a - b` modulo the field order.
#[verifier::external_body]
fn fq381_sub(a: &BlsScalar, b: &BlsScalar) -> (r: BlsScalar)
    requires
        a.wf(),
        b.wf(),
    ensures
        r.wf(),
        r.value() == (a.value() - b.value()) % (bls_modulus() as int),
{
    let x = Fq::from_repr(BigInteger256(a.limbs)).unwrap();
    let y = Fq::from_repr(BigInteger256(b.limbs)).unwrap();
    BlsScalar { limbs: (x - y).into_repr().0 }
}

} // verus!
