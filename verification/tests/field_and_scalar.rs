use merkle_tree_example::field::{half_modulus_element, greater_in_lower_half_holds, FieldElement};
use merkle_tree_example::bls_field::BlsScalar;
use merkle_tree_example::scalar::{hex_to_be_bytes, hex_to_scalar, is_hex_scalar_input};
use ark_ff::{BigInteger, PrimeField};

const R_LIMBS: [u64; 4] = [0x43e1f593f0000001, 0x2833e84879b97091, 0xb85045b68181585d, 0x30644e72e131a029];

fn fe(n: u64) -> FieldElement {
    FieldElement::from_u64(n)
}

#[test]
fn hex_with_and_without_prefix() {
    assert_eq!(hex_to_scalar("0x1f").limbs, [31, 0, 0, 0]);
    assert_eq!(hex_to_scalar("1f").limbs, [31, 0, 0, 0]);
    assert_eq!(hex_to_scalar("0x0x1F").limbs, [31, 0, 0, 0]);
    assert_eq!(hex_to_scalar("").limbs, [0, 0, 0, 0]);
    assert_eq!(hex_to_scalar("0x").limbs, [0, 0, 0, 0]);
}

#[test]
fn hex_leading_zeros_do_not_matter() {
    assert_eq!(hex_to_scalar("0001f").limbs, hex_to_scalar("1f").limbs);
    assert_eq!(hex_to_scalar("0x001f").limbs, [31, 0, 0, 0]);
}

#[test]
fn hex_odd_length_is_padded() {
    assert_eq!(hex_to_scalar("abc").limbs, [0xabc, 0, 0, 0]);
    assert_eq!(hex_to_scalar("0x10000000000000000").limbs, [0, 1, 0, 0]);
}

#[test]
fn hex_reduces_modulo_r() {
    let r_hex = "0x30644e72e131a029b85045b68181585d2833e84879b9709143e1f593f0000001";
    assert_eq!(hex_to_scalar(r_hex).limbs, [0, 0, 0, 0]);
    let r_plus_5 = "30644e72e131a029b85045b68181585d2833e84879b9709143e1f593f0000006";
    assert_eq!(hex_to_scalar(r_plus_5).limbs, [5, 0, 0, 0]);
    let all_f = "ffffffffffffffffffffffffffffffffffffffffffffffffffffffffffffffff";
    // 2^256 - 1 mod r
    assert_eq!(
        hex_to_scalar(all_f).limbs,
        [0xac96341c4ffffffa, 0x36fc76959f60cd29, 0x666ea36f7879462e, 0x0e0a77c19a07df2f]
    );
}

#[test]
fn hex_longer_than_64_digits() {
    // 66 digits: 0x01 followed by 32 zero bytes is 2^256.
    let s = "010000000000000000000000000000000000000000000000000000000000000000";
    let one_more = hex_to_scalar("ffffffffffffffffffffffffffffffffffffffffffffffffffffffffffffffff");
    let v = hex_to_scalar(s);
    // 2^256 = (2^256 - 1) + 1 in the field
    let one = fe(1);
    assert_eq!(v.sub(&one).limbs, one_more.limbs);
}

#[test]
fn hex_inputs_accepted_and_refused() {
    assert!(is_hex_scalar_input("0x1f"));
    assert!(is_hex_scalar_input("DEADbeef"));
    assert!(is_hex_scalar_input(""));
    assert!(!is_hex_scalar_input("0xzz"));
    assert!(!is_hex_scalar_input("12 34"));
    assert!(!is_hex_scalar_input("0X12"));
    assert!(!is_hex_scalar_input("é1"));
    // 65 digits: odd and longer than 64
    let odd65 = "1".repeat(65);
    assert!(!is_hex_scalar_input(&odd65));
    let even66 = "1".repeat(66);
    assert!(is_hex_scalar_input(&even66));
}

#[test]
fn field_subtraction_wraps() {
    let a = fe(5);
    let b = fe(7);
    let d = a.sub(&b);
    // r - 2
    assert_eq!(d.limbs, [R_LIMBS[0] - 2, R_LIMBS[1], R_LIMBS[2], R_LIMBS[3]]);
    assert_eq!(b.sub(&a).limbs, [2, 0, 0, 0]);
}

#[test]
fn field_comparisons() {
    assert!(fe(10).is_greater_than(&fe(9)));
    assert!(!fe(9).is_greater_than(&fe(9)));
    assert!(fe(9).equals(&fe(9)));
    assert!(!fe(9).equals(&fe(8)));
    let big = FieldElement { limbs: [0, 0, 0, 1] };
    assert!(big.is_greater_than(&FieldElement { limbs: [u64::MAX, u64::MAX, u64::MAX, 0] }));
    let half = half_modulus_element();
    assert!(half.is_at_most_half_modulus());
    let above = FieldElement { limbs: [half.limbs[0] + 1, half.limbs[1], half.limbs[2], half.limbs[3]] };
    assert!(!above.is_at_most_half_modulus());
    assert!(greater_in_lower_half_holds(&fe(30), &fe(24)));
    assert!(!greater_in_lower_half_holds(&fe(24), &fe(30)));
    assert!(!greater_in_lower_half_holds(&above, &fe(24)));
    // r - 1 is larger than 24 as an integer but not in the lower half
    let minus_one = fe(0).sub(&fe(1));
    assert!(!greater_in_lower_half_holds(&minus_one, &fe(24)));
}

#[test]
fn hex_bytes_are_padded_to_32() {
    let b = hex_to_be_bytes("0x1f");
    assert_eq!(b.len(), 32);
    assert_eq!(b[31], 0x1f);
    assert!(b[..31].iter().all(|x| *x == 0));
    assert_eq!(hex_to_be_bytes(&"ab".repeat(33)), vec![0xab; 33]);
}

#[test]
fn hex_case_insensitive() {
    let t = "00c0ffeeDEADbeef";
    assert_eq!(
        hex_to_scalar(&t.to_ascii_uppercase()).limbs,
        hex_to_scalar(&t.to_ascii_lowercase()).limbs
    );
    assert_eq!(hex_to_scalar("ABCDEF").limbs, [0xabcdef, 0, 0, 0]);
}

#[test]
fn hex_round_trip_of_scalars() {
    for x in [
        ark_bn254::Fr::from(0u64),
        ark_bn254::Fr::from(2025u64),
        -ark_bn254::Fr::from(1u64),
        ark_bn254::Fr::from(u64::MAX) * ark_bn254::Fr::from(u64::MAX),
    ] {
        let s = format!("0x{}", hex::encode(x.into_repr().to_bytes_be()));
        assert_eq!(hex_to_scalar(&s).limbs, x.into_repr().0);
    }
}

#[test]
fn bls_field_subtraction_and_halves() {
    let r: [u64; 4] = [0xffffffff00000001, 0x53bda402fffe5bfe, 0x3339d80809a1d805, 0x73eda753299d7d48];
    let d = BlsScalar::from_u64(5).sub(&BlsScalar::from_u64(7));
    assert_eq!(d.limbs, [r[0] - 2, r[1], r[2], r[3]]);
    assert_eq!(BlsScalar::from_u64(7).sub(&BlsScalar::from_u64(5)).limbs, [2, 0, 0, 0]);
    assert!(BlsScalar::from_u64(9).is_greater_than(&BlsScalar::from_u64(8)));
    assert!(BlsScalar::from_u64(9).equals(&BlsScalar::from_u64(9)));
    assert!(!d.is_at_most_half_modulus());
    let half = BlsScalar {
        limbs: [0x7fffffff80000000, 0xa9ded2017fff2dff, 0x199cec0404d0ec02, 0x39f6d3a994cebea4],
    };
    assert!(half.is_at_most_half_modulus());
    let above = BlsScalar { limbs: [half.limbs[0] + 1, half.limbs[1], half.limbs[2], half.limbs[3]] };
    assert!(!above.is_at_most_half_modulus());
}
