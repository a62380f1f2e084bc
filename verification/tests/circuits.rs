use ark_bn254::Fr as Fp;
use ark_crypto_primitives::crh::injective_map::{PedersenCRHCompressor, TECompressor};
use ark_crypto_primitives::crh::{pedersen, TwoToOneCRH, CRH};
use ark_crypto_primitives::merkle_tree::{Config, MerkleTree};
use ark_ed_on_bn254::EdwardsProjective;
use ark_ff::{PrimeField, ToBytes};
use ark_std::rand::{rngs::StdRng, RngCore, SeedableRng};
use ark_std::test_rng;

use merkle_tree_example::circuits::license::VroomLicenseCircuit as AgeLicenseCircuit;
use merkle_tree_example::circuits::merkle_tree::MerkleTreeCircuit;
use merkle_tree_example::did::license::VroomLicenseCircuit;
use merkle_tree_example::field::FieldElement;
use merkle_tree_example::merkle::{HashKey, PathChoice};
use merkle_tree_example::bls_field::BlsScalar;

#[derive(Clone)]
struct LeafWindow;
impl pedersen::Window for LeafWindow {
    const WINDOW_SIZE: usize = 4;
    const NUM_WINDOWS: usize = 144;
}

#[derive(Clone)]
struct TwoToOneWindow;
impl pedersen::Window for TwoToOneWindow {
    const WINDOW_SIZE: usize = 4;
    const NUM_WINDOWS: usize = 128;
}

type LeafHash = PedersenCRHCompressor<EdwardsProjective, TECompressor, LeafWindow>;
type TwoToOneHash = PedersenCRHCompressor<EdwardsProjective, TECompressor, TwoToOneWindow>;

#[derive(Clone)]
struct TestConfig;
impl Config for TestConfig {
    type LeafHash = LeafHash;
    type TwoToOneHash = TwoToOneHash;
}

fn fe(x: &Fp) -> FieldElement {
    FieldElement { limbs: x.into_repr().0 }
}

fn to_fp(e: &FieldElement) -> Fp {
    Fp::from_repr(ark_ff::BigInteger256(e.limbs)).unwrap()
}

fn bls(x: &ark_ed_on_bls12_381::Fq) -> BlsScalar {
    BlsScalar { limbs: x.into_repr().0 }
}

type JubJubLeafHash =
    PedersenCRHCompressor<ark_ed_on_bls12_381::EdwardsProjective, TECompressor, LeafWindow>;
type JubJubTwoToOneHash =
    PedersenCRHCompressor<ark_ed_on_bls12_381::EdwardsProjective, TECompressor, TwoToOneWindow>;

#[derive(Clone)]
struct JubJubConfig;
impl Config for JubJubConfig {
    type LeafHash = JubJubLeafHash;
    type TwoToOneHash = JubJubTwoToOneHash;
}

fn values(v: &[FieldElement]) -> Vec<[u64; 4]> {
    v.iter().map(|e| e.limbs).collect()
}

fn seeded_rng() -> StdRng {
    StdRng::seed_from_u64(test_rng().next_u64())
}

fn bytes(x: &Fp) -> Vec<u8> {
    let mut out = Vec::new();
    x.write(&mut out).unwrap();
    out
}

#[test]
fn element_bytes_match_arkworks() {
    for x in [Fp::from(0u64), Fp::from(2001u64), Fp::from(u64::MAX), -Fp::from(1u64)] {
        assert_eq!(fe(&x).to_bytes_le(), bytes(&x));
    }
    assert_eq!(
        FieldElement::from_u64(0x0102).to_bytes_le()[..3],
        [0x02, 0x01, 0x00]
    );
}

#[test]
fn merkle_tree_test_merkle_trees() {
    let rng = &mut seeded_rng();
    let leaf_crh_params = <LeafHash as CRH>::setup(rng).unwrap();
    let two_to_one_crh_params = <TwoToOneHash as TwoToOneCRH>::setup(rng).unwrap();
    let tree = MerkleTree::<TestConfig>::new(
        &leaf_crh_params,
        &two_to_one_crh_params,
        &[
            Fp::from(1u8),
            Fp::from(2u8),
            Fp::from(3u8),
            Fp::from(10u8),
            Fp::from(9u8),
            Fp::from(17u8),
            Fp::from(70u8),
            Fp::from(45u8),
        ],
    )
    .unwrap();
    let proof = tree.generate_proof(4).unwrap();
    let root = tree.root();
    assert!(proof.verify(&leaf_crh_params, &two_to_one_crh_params, &root, &Fp::from(9u8)).unwrap());

    let circuit = MerkleTreeCircuit { root: fe(&root), leaf: fe(&Fp::from(9u8)) };
    let is_member =
        proof.verify(&leaf_crh_params, &two_to_one_crh_params, &root, &Fp::from(9u8)).unwrap();
    assert!(circuit.constraints_hold(is_member));
    assert!(!circuit.constraints_hold(false));
    let verify_inputs = [fe(&root), fe(&Fp::from(9u8))];
    assert_eq!(values(&circuit.public_inputs()), values(&verify_inputs));
}

#[test]
fn license_test_merkle_trees() {
    type Fp = ark_ed_on_bls12_381::Fq;
    let rng = &mut seeded_rng();
    let leaf_crh_params = <JubJubLeafHash as CRH>::setup(rng).unwrap();
    let two_to_one_crh_params = <JubJubTwoToOneHash as TwoToOneCRH>::setup(rng).unwrap();
    let tree = MerkleTree::<JubJubConfig>::new(
        &leaf_crh_params,
        &two_to_one_crh_params,
        &[
            Fp::from(20400318u64),
            Fp::from(20010319u64),
            Fp::from(0u64),
            Fp::from(0u64),
            Fp::from(0u64),
            Fp::from(0u64),
            Fp::from(0u64),
            Fp::from(0u64),
        ],
    )
    .unwrap();
    let proof_exp = tree.generate_proof(0).unwrap();
    let proof_birth = tree.generate_proof(1).unwrap();
    let root = tree.root();

    let circuit = AgeLicenseCircuit {
        root: bls(&root),
        leaf_exp: bls(&Fp::from(20400318u64)),
        cur_time: bls(&Fp::from(20250219u64)),
        birth: bls(&Fp::from(20010319u64)),
    };

    let exp_is_member = proof_exp
        .verify(&leaf_crh_params, &two_to_one_crh_params, &root, &Fp::from(20400318u64))
        .unwrap();
    let birth_is_member = proof_birth
        .verify(&leaf_crh_params, &two_to_one_crh_params, &root, &Fp::from(20010319u64))
        .unwrap();
    assert!(circuit.constraints_hold(exp_is_member, birth_is_member));

    let leaf_fp = Fp::from(20400318u64);
    let cur_time = Fp::from(20250219u64);
    let verify_inputs = [root, leaf_fp, cur_time];
    let got: Vec<[u64; 4]> = circuit.public_inputs().iter().map(|e| e.limbs).collect();
    let want: Vec<[u64; 4]> = verify_inputs.iter().map(|x| bls(x).limbs).collect();
    assert_eq!(got, want);
}

#[test]
fn did_sample_licence_satisfies_constraints() {
    let birth = Fp::from(2001u64);
    let birth_rng = <LeafHash as CRH>::setup(&mut seeded_rng()).unwrap();
    let birth_hash = <LeafHash as CRH>::evaluate(&birth_rng, &bytes(&birth)).unwrap();

    let exp = Fp::from(2040u64);
    let exp_rng = <LeafHash as CRH>::setup(&mut seeded_rng()).unwrap();
    let exp_hash = <LeafHash as CRH>::evaluate(&exp_rng, &bytes(&exp)).unwrap();

    let rng = &mut seeded_rng();
    let leaf_crh_params = <LeafHash as CRH>::setup(rng).unwrap();
    let two_to_one_crh_params = <TwoToOneHash as TwoToOneCRH>::setup(rng).unwrap();
    let zero = Fp::from(0u64);
    let tree = MerkleTree::<TestConfig>::new(
        &leaf_crh_params,
        &two_to_one_crh_params,
        &[birth_hash, exp_hash, zero, zero, zero, zero, zero, zero],
    )
    .unwrap();
    let proof_birth = tree.generate_proof(0).unwrap();
    let proof_exp = tree.generate_proof(1).unwrap();
    let root = tree.root();
    let cur_time = Fp::from(2025u64);

    let circuit = VroomLicenseCircuit {
        root: fe(&root),
        exp_hash: fe(&exp_hash),
        birth_hash: fe(&birth_hash),
        cur_time: fe(&cur_time),
        birth: fe(&birth),
        exp: fe(&exp),
    };

    // Carry out the circuit's hash and membership requests.
    let hashes: Vec<FieldElement> = circuit
        .hash_requests()
        .iter()
        .map(|q| {
            let key = match q.key {
                HashKey::Birth => &birth_rng,
                HashKey::Expiry => &exp_rng,
            };
            fe(&<LeafHash as CRH>::evaluate(key, &q.preimage).unwrap())
        })
        .collect();
    assert_eq!(hashes[0].limbs, fe(&birth_hash).limbs);
    assert_eq!(hashes[1].limbs, fe(&exp_hash).limbs);
    let outcomes: Vec<bool> = circuit
        .membership_requests()
        .iter()
        .map(|q| {
            let path = match q.path {
                PathChoice::Expiry => &proof_exp,
                PathChoice::Birth => &proof_birth,
                PathChoice::Authentication => unreachable!(),
            };
            path.verify(&leaf_crh_params, &two_to_one_crh_params, &to_fp(&q.root), &to_fp(&q.leaf))
                .unwrap()
        })
        .collect();
    let (predicted_birth_hash, predicted_exp_hash) = (hashes[0], hashes[1]);
    let (exp_is_member, birth_is_member) = (outcomes[0], outcomes[1]);
    assert!(circuit.constraints_hold(
        &predicted_birth_hash,
        &predicted_exp_hash,
        exp_is_member,
        birth_is_member
    ));

    let verify_inputs = [fe(&root), fe(&exp_hash), fe(&birth_hash), fe(&cur_time)];
    assert_eq!(values(&circuit.public_inputs()), values(&verify_inputs));
}

fn did_circuit(birth: u64, exp: u64, cur_time: u64) -> VroomLicenseCircuit {
    VroomLicenseCircuit {
        root: FieldElement::from_u64(7),
        exp_hash: FieldElement::from_u64(11),
        birth_hash: FieldElement::from_u64(13),
        cur_time: FieldElement::from_u64(cur_time),
        birth: FieldElement::from_u64(birth),
        exp: FieldElement::from_u64(exp),
    }
}

fn did_holds(c: &VroomLicenseCircuit) -> bool {
    c.constraints_hold(&FieldElement::from_u64(13), &FieldElement::from_u64(11), true, true)
}

#[test]
fn did_age_window_bounds() {
    assert!(did_holds(&did_circuit(2001, 2040, 2025)));
    // age 20 and age 29 are inside, 19 and 30 outside
    assert!(did_holds(&did_circuit(2005, 2040, 2025)));
    assert!(did_holds(&did_circuit(1996, 2040, 2025)));
    assert!(!did_holds(&did_circuit(2006, 2040, 2025)));
    assert!(!did_holds(&did_circuit(1995, 2040, 2025)));
    // birth after the current time wraps around the field: refused
    assert!(!did_holds(&did_circuit(2030, 2040, 2025)));
}

#[test]
fn did_expiry_must_follow_current_time() {
    assert!(!did_holds(&did_circuit(2001, 2025, 2025)));
    assert!(!did_holds(&did_circuit(2001, 2024, 2025)));
    assert!(did_holds(&did_circuit(2001, 2026, 2025)));
}

#[test]
fn did_hashes_and_membership_must_match() {
    let c = did_circuit(2001, 2040, 2025);
    let birth_hash = FieldElement::from_u64(13);
    let exp_hash = FieldElement::from_u64(11);
    let other = FieldElement::from_u64(12);
    assert!(!c.constraints_hold(&other, &exp_hash, true, true));
    assert!(!c.constraints_hold(&birth_hash, &other, true, true));
    assert!(!c.constraints_hold(&birth_hash, &exp_hash, false, true));
    assert!(!c.constraints_hold(&birth_hash, &exp_hash, true, false));
    assert!(c.constraints_hold(&birth_hash, &exp_hash, true, true));
}

#[test]
fn did_dates_in_upper_half_are_refused() {
    let mut c = did_circuit(2001, 2040, 2025);
    // expiry r - 1: larger than the current time as an integer, but not in the lower half
    c.exp = FieldElement::from_u64(0).sub(&FieldElement::from_u64(1));
    assert!(!did_holds(&c));
}

fn age_circuit(birth: u64, cur_time: u64) -> AgeLicenseCircuit {
    AgeLicenseCircuit {
        root: BlsScalar::from_u64(7),
        leaf_exp: BlsScalar::from_u64(20400318),
        cur_time: BlsScalar::from_u64(cur_time),
        birth: BlsScalar::from_u64(birth),
    }
}

#[test]
fn age_licence_needs_twenty_years() {
    assert!(age_circuit(20010319, 20250219).constraints_hold(true, true));
    assert!(age_circuit(20050219, 20250219).constraints_hold(true, true));
    // a gap of 199999 is refused, 200000 accepted
    assert!(!age_circuit(20050220, 20250219).constraints_hold(true, true));
    assert!(!age_circuit(0, 199999).constraints_hold(true, true));
    assert!(age_circuit(0, 200000).constraints_hold(true, true));
    assert!(!age_circuit(20010319, 20250219).constraints_hold(false, true));
    assert!(!age_circuit(20010319, 20250219).constraints_hold(true, false));
}

#[test]
fn age_licence_works_in_the_bls12_381_field() {
    // cur_time just above half of the BN254 order, birth 0: the gap lies in the lower half
    // of the BLS12-381 scalar field, so the condition holds.
    let bn254_half_plus_one: [u64; 4] =
        [0xa1f0fac9f8000001, 0x9419f4243cdcb848, 0xdc2822db40c0ac2e, 0x183227397098d014];
    let c = AgeLicenseCircuit {
        root: BlsScalar::from_u64(7),
        leaf_exp: BlsScalar::from_u64(20400318),
        cur_time: BlsScalar { limbs: bn254_half_plus_one },
        birth: BlsScalar::from_u64(0),
    };
    assert!(c.constraints_hold(true, true));
    // birth after the current time wraps to the upper half: refused
    assert!(!age_circuit(20250220, 20250219).constraints_hold(true, true));
}

#[test]
fn requests_name_the_right_values() {
    let c = did_circuit(2001, 2040, 2025);
    let h = c.hash_requests();
    assert_eq!(h.len(), 2);
    assert_eq!(h[0].key, HashKey::Birth);
    assert_eq!(h[0].preimage, FieldElement::from_u64(2001).to_bytes_le());
    assert_eq!(h[1].key, HashKey::Expiry);
    assert_eq!(h[1].preimage, FieldElement::from_u64(2040).to_bytes_le());
    let m = c.membership_requests();
    assert_eq!(m.len(), 2);
    assert_eq!((m[0].path, m[0].leaf.limbs, m[0].root.limbs), (PathChoice::Expiry, [11, 0, 0, 0], [7, 0, 0, 0]));
    assert_eq!((m[1].path, m[1].leaf.limbs), (PathChoice::Birth, [13, 0, 0, 0]));

    let a = age_circuit(20010319, 20250219).membership_requests();
    assert_eq!((a[0].path, a[0].leaf.limbs), (PathChoice::Expiry, [20400318, 0, 0, 0]));
    assert_eq!((a[1].path, a[1].leaf.limbs), (PathChoice::Birth, [20010319, 0, 0, 0]));

    let t = MerkleTreeCircuit { root: FieldElement::from_u64(1), leaf: FieldElement::from_u64(9) };
    let r = t.membership_requests();
    assert_eq!((r.len(), r[0].path, r[0].leaf.limbs), (1, PathChoice::Authentication, [9, 0, 0, 0]));
}
