//! Elements of the BN254 scalar field, held as four little-endian 64-bit limbs.
use ark_bn254::Fr;
use ark_ff::{BigInteger256, PrimeField};
use vstd::prelude::*;

verus! {

/// 2^64, the weight of the second limb.
pub open spec fn pow64() -> nat {
    0x1_0000_0000_0000_0000nat
}

/// 2^128, the weight of the third limb.
pub open spec fn pow128() -> nat {
    0x1_0000_0000_0000_0000_0000_0000_0000_0000nat
}

/// 2^192, the weight of the fourth limb.
pub open spec fn pow192() -> nat {
    0x1_0000_0000_0000_0000_0000_0000_0000_0000_0000_0000_0000_0000nat
}

/// The order r of the BN254 scalar field (the base field of Baby-JubJub).
pub open spec fn modulus() -> nat {
    21888242871839275222246405745257275088548364400416034343698204186575808495617nat
}

/// (r - 1) / 2, the largest value that the circuits' comparisons accept.
pub open spec fn half_modulus() -> nat {
    10944121435919637611123202872628637544274182200208017171849102093287904247808nat
}

/// The integer that four little-endian limbs stand for.
pub open spec fn limbs_value(l: [u64; 4]) -> nat {
    (l[0] + l[1] * pow64() + l[2] * pow128() + l[3] * pow192()) as nat
}

/// What `FpVar::enforce_cmp(self = a, other = b, Greater, false)` asks of two field values:
/// both lie in the lower half of the field and `a` is strictly larger than `b`.
pub open spec fn greater_in_lower_half(a: nat, b: nat) -> bool {
    &&& a <= half_modulus()
    &&& b <= half_modulus()
    &&& a > b
}

/// The number that a little-endian byte string stands for.
pub open spec fn le_value(bytes: Seq<u8>) -> nat
    decreases bytes.len(),
{
    if bytes.len() == 0 {
        0
    } else {
        bytes[0] as nat + 256 * le_value(bytes.drop_first())
    }
}

/// 256^n.
pub open spec fn pow256(n: nat) -> nat
    decreases n,
{
    if n == 0 {
        1
    } else {
        256 * pow256((n - 1) as nat)
    }
}

/// The eight little-endian bytes of a 64-bit limb.
pub open spec fn limb_bytes(x: u64) -> Seq<u8> {
    seq![
        x as u8,
        (x >> 8u64) as u8,
        (x >> 16u64) as u8,
        (x >> 24u64) as u8,
        (x >> 32u64) as u8,
        (x >> 40u64) as u8,
        (x >> 48u64) as u8,
        (x >> 56u64) as u8,
    ]
}

/// A BN254 scalar field element in canonical form: its limbs encode an integer below r.
#[derive(Clone, Copy, Debug)]
pub struct FieldElement {
    pub limbs: [u64; 4],
}

impl FieldElement {
    /// The integer this element stands for.
    pub open spec fn value(&self) -> nat {
        limbs_value(self.limbs)
    }

    /// The limbs encode a canonical residue.
    pub open spec fn wf(&self) -> bool {
        self.value() < modulus()
    }

    /// The element whose value is `n` (what `Fp::from(n)` gives for a `u64`).
    pub fn from_u64(n: u64) -> (r: FieldElement)
        ensures
            r.value() == n,
            r.wf(),
    {
        FieldElement { limbs: [n, 0, 0, 0] }
    }

    /// The 32 little-endian bytes of the element.
    pub open spec fn bytes_spec(&self) -> Seq<u8> {
        limb_bytes(self.limbs[0]) + limb_bytes(self.limbs[1]) + limb_bytes(self.limbs[2])
            + limb_bytes(self.limbs[3])
    }

    /// The 32 little-endian bytes of the element (what `ToBytes` writes for an `Fp256`,
    /// and what the circuits hash).
    pub fn to_bytes_le(&self) -> (r: Vec<u8>)
        ensures
            r@ == self.bytes_spec(),
            r@.len() == 32,
            le_value(r@) == self.value(),
    {
        let mut out: Vec<u8> = Vec::new();
        let mut k: usize = 0;
        while k < 4
            invariant
                k <= 4,
                out@ == if k == 0 {
                    Seq::<u8>::empty()
                } else if k == 1 {
                    limb_bytes(self.limbs[0])
                } else if k == 2 {
                    limb_bytes(self.limbs[0]) + limb_bytes(self.limbs[1])
                } else if k == 3 {
                    limb_bytes(self.limbs[0]) + limb_bytes(self.limbs[1]) + limb_bytes(self.limbs[2])
                } else {
                    limb_bytes(self.limbs[0]) + limb_bytes(self.limbs[1]) + limb_bytes(self.limbs[2])
                        + limb_bytes(self.limbs[3])
                },
            decreases 4 - k,
        {
            let x = self.limbs[k];
            let ghost before = out@;
            out.push(x as u8);
            out.push((x >> 8u64) as u8);
            out.push((x >> 16u64) as u8);
            out.push((x >> 24u64) as u8);
            out.push((x >> 32u64) as u8);
            out.push((x >> 40u64) as u8);
            out.push((x >> 48u64) as u8);
            out.push((x >> 56u64) as u8);
            assert(out@ =~= before + limb_bytes(x));
            k = k + 1;
        }
        proof {
            lemma_le_value_of_limbs(self.limbs);
        }
        out
    }

    /// Whether two elements stand for the same integer.
    pub fn equals(&self, other: &FieldElement) -> (r: bool)
        ensures
            r == (self.value() == other.value()),
    {
        limbs_equal(self.limbs, other.limbs)
    }

    /// Compares the integer values of two elements.
    pub fn is_greater_than(&self, other: &FieldElement) -> (r: bool)
        ensures
            r == (self.value() > other.value()),
    {
        limbs_greater_than(self.limbs, other.limbs)
    }

    /// Whether the value is at most (r - 1) / 2.
    pub fn is_at_most_half_modulus(&self) -> (r: bool)
        ensures
            r == (self.value() <= half_modulus()),
    {
        let half = half_modulus_element();
        !self.is_greater_than(&half)
    }

    /// The field difference `self - other`, computed by ark-ff.
    pub fn sub(&self, other: &FieldElement) -> (r: FieldElement)
        requires
            self.wf(),
            other.wf(),
        ensures
            r.wf(),
            r.value() == (self.value() - other.value()) % (modulus() as int),
    {
        fr_sub(self, other)
    }
}

/// Compares the integers that two limb arrays stand for.
pub fn limbs_greater_than(a: [u64; 4], b: [u64; 4]) -> (r: bool)
    ensures
        r == (limbs_value(a) > limbs_value(b)),
{
    if a[3] != b[3] {
        a[3] > b[3]
    } else if a[2] != b[2] {
        a[2] > b[2]
    } else if a[1] != b[1] {
        a[1] > b[1]
    } else {
        a[0] > b[0]
    }
}

/// Whether two limb arrays stand for the same integer.
pub fn limbs_equal(a: [u64; 4], b: [u64; 4]) -> (r: bool)
    ensures
        r == (limbs_value(a) == limbs_value(b)),
{
    a[0] == b[0] && a[1] == b[1] && a[2] == b[2] && a[3] == b[3]
}

/// The element (r - 1) / 2.
pub fn half_modulus_element() -> (r: FieldElement)
    ensures
        r.value() == half_modulus(),
        r.wf(),
{
    FieldElement {
        limbs: [0xa1f0fac9f8000000, 0x9419f4243cdcb848, 0xdc2822db40c0ac2e, 0x183227397098d014],
    }
}

/// Decides the ordering constraint `a.enforce_cmp(b, Greater, false)` on concrete values.
pub fn greater_in_lower_half_holds(a: &FieldElement, b: &FieldElement) -> (r: bool)
    ensures
        r == greater_in_lower_half(a.value(), b.value()),
{
    a.is_at_most_half_modulus() && b.is_at_most_half_modulus() && a.is_greater_than(b)
}

/// Within the lower half of the field, the circuits' ordering condition is the integer order.
pub proof fn law_lower_half_order(a: nat, b: nat)
    requires
        a <= half_modulus(),
        b <= half_modulus(),
    ensures
        greater_in_lower_half(a, b) <==> a > b,
{
}

/// A difference of two residues that does not go below zero is taken exactly.
pub proof fn lemma_small_difference(a: nat, b: nat, m: nat)
    requires
        b <= a < m,
    ensures
        (a - b) % (m as int) == a - b,
{
    vstd::arithmetic::div_mod::lemma_small_mod((a - b) as nat, m);
}

/// The little-endian value of two byte strings one after the other.
pub proof fn lemma_le_value_concat(a: Seq<u8>, b: Seq<u8>)
    ensures
        le_value(a + b) == le_value(a) + pow256(a.len()) * le_value(b),
    decreases a.len(),
{
    if a.len() > 0 {
        lemma_le_value_concat(a.drop_first(), b);
        assert((a + b).drop_first() =~= a.drop_first() + b);
        let x = le_value(a.drop_first());
        let p = pow256((a.len() - 1) as nat);
        let y = le_value(b);
        assert((a + b)[0] == a[0]);
        assert(pow256(a.len()) == 256 * p);
        assert(le_value(a + b) == a[0] + 256 * le_value(a.drop_first() + b));
        assert(le_value(a) == a[0] + 256 * x);
        assert(le_value(a.drop_first() + b) == x + p * y);
        assert(256 * (x + p * y) == 256 * x + (256 * p) * y) by (nonlinear_arith);
    } else {
        assert(a + b =~= b);
        assert(le_value(a) == 0);
        assert(pow256(0) == 1);
    }
}

/// The eight bytes of a limb stand for the limb.
pub proof fn lemma_le_value_limb(x: u64)
    ensures
        le_value(limb_bytes(x)) == x,
        limb_bytes(x).len() == 8,
{
    let s = limb_bytes(x);
    let b0 = x as u8;
    let b1 = (x >> 8u64) as u8;
    let b2 = (x >> 16u64) as u8;
    let b3 = (x >> 24u64) as u8;
    let b4 = (x >> 32u64) as u8;
    let b5 = (x >> 40u64) as u8;
    let b6 = (x >> 48u64) as u8;
    let b7 = (x >> 56u64) as u8;
    assert(x == b0 + 256 * (b1 + 256 * (b2 + 256 * (b3 + 256 * (b4 + 256 * (b5 + 256 * (b6
        + 256 * b7))))))) by (bit_vector)
        requires
            b0 == x as u8,
            b1 == (x >> 8u64) as u8,
            b2 == (x >> 16u64) as u8,
            b3 == (x >> 24u64) as u8,
            b4 == (x >> 32u64) as u8,
            b5 == (x >> 40u64) as u8,
            b6 == (x >> 48u64) as u8,
            b7 == (x >> 56u64) as u8,
    ;
    let t7 = s.skip(7);
    let t6 = s.skip(6);
    let t5 = s.skip(5);
    let t4 = s.skip(4);
    let t3 = s.skip(3);
    let t2 = s.skip(2);
    let t1 = s.skip(1);
    assert(t7.drop_first() =~= Seq::<u8>::empty());
    assert(t6.drop_first() =~= t7);
    assert(t5.drop_first() =~= t6);
    assert(t4.drop_first() =~= t5);
    assert(t3.drop_first() =~= t4);
    assert(t2.drop_first() =~= t3);
    assert(t1.drop_first() =~= t2);
    assert(s.drop_first() =~= t1);
    assert(t7[0] == b7 && t6[0] == b6 && t5[0] == b5 && t4[0] == b4);
    assert(t3[0] == b3 && t2[0] == b2 && t1[0] == b1 && s[0] == b0);
    assert(le_value(t7.drop_first()) == 0);
    assert(le_value(t7) == b7);
    assert(le_value(t6) == b6 + 256 * b7);
    assert(le_value(t5) == b5 + 256 * le_value(t6));
    assert(le_value(t4) == b4 + 256 * le_value(t5));
    assert(le_value(t3) == b3 + 256 * le_value(t4));
    assert(le_value(t2) == b2 + 256 * le_value(t3));
    assert(le_value(t1) == b1 + 256 * le_value(t2));
    assert(le_value(s) == b0 + 256 * le_value(t1));
}

/// 256^8, 256^16 and 256^24 are the limb weights.
proof fn lemma_pow256_limb_weights()
    ensures
        pow256(8) == pow64(),
        pow256(16) == pow128(),
        pow256(24) == pow192(),
{
    reveal_with_fuel(pow256, 25);
}

/// The 32 bytes of four limbs stand for the limbs' value.
proof fn lemma_le_value_of_limbs(l: [u64; 4])
    ensures
        le_value(limb_bytes(l[0]) + limb_bytes(l[1]) + limb_bytes(l[2]) + limb_bytes(l[3]))
            == limbs_value(l),
{
    let a = limb_bytes(l[0]);
    let b = limb_bytes(l[1]);
    let c = limb_bytes(l[2]);
    let d = limb_bytes(l[3]);
    lemma_le_value_limb(l[0]);
    lemma_le_value_limb(l[1]);
    lemma_le_value_limb(l[2]);
    lemma_le_value_limb(l[3]);
    lemma_pow256_limb_weights();
    lemma_le_value_concat(c, d);
    lemma_le_value_concat(b, c + d);
    lemma_le_value_concat(a, b + (c + d));
    assert(a + b + c + d =~= a + (b + (c + d)));
    assert((b + (c + d)).len() == 24);
    let vd = le_value(d);
    let vc = le_value(c);
    let vb = le_value(b);
    assert(pow64() * (vb + pow64() * (vc + pow64() * vd)) == pow64() * vb + pow128() * vc
        + pow192() * vd) by (nonlinear_arith);
}

/// Subtraction in `ark_bn254::Fr` (the `Sub` impl of `Fp256`).
/// Trusted: the result is the canonical residue of `a - b` modulo r.
#[verifier::external_body]
fn fr_sub(a: &FieldElement, b: &FieldElement) -> (r: FieldElement)
    requires
        a.wf(),
        b.wf(),
    ensures
        r.wf(),
        r.value() == (a.value() - b.value()) % (modulus() as int),
{
    let x = Fr::from_repr(BigInteger256(a.limbs)).unwrap();
    let y = Fr::from_repr(BigInteger256(b.limbs)).unwrap();
    FieldElement { limbs: (x - y).into_repr().0 }
}

} // verus!
