//! The Merkle tree configuration of the circuits, and the outside checks they ask for.
//!
//! The tree hashes leaves and pairs of nodes with Pedersen hashes over a twisted Edwards curve
//! whose base field is the circuit's field (Baby-JubJub for BN254, Jubjub for BLS12-381),
//! keeping the x-coordinate of each hash point, so its digests are field elements. The hash
//! parameters, the tree and its authentication paths are arkworks values held by the caller,
//! who carries out the requests below and hands their outcomes back.
use crate::field::FieldElement;
use vstd::prelude::*;

verus! {

/// Bits per window of the leaf hash.
pub const LEAF_WINDOW_SIZE: usize = 4;

/// Number of windows of the leaf hash: 4 * 144 = 576 input bits.
pub const LEAF_NUM_WINDOWS: usize = 144;

/// Bits per window of the two-to-one hash.
pub const TWO_TO_ONE_WINDOW_SIZE: usize = 4;

/// Number of windows of the two-to-one hash: 4 * 128 = 512 input bits, 256 per child.
pub const TWO_TO_ONE_NUM_WINDOWS: usize = 128;

/// The Merkle tree configuration: leaves are hashed with the leaf hash
/// (`LEAF_WINDOW_SIZE` x `LEAF_NUM_WINDOWS`), pairs of nodes with the two-to-one hash
/// (`TWO_TO_ONE_WINDOW_SIZE` x `TWO_TO_ONE_NUM_WINDOWS`).
#[derive(Clone, Copy, Debug)]
pub struct MerkleConfig;

/// The root of the account Merkle tree.
pub type Root = FieldElement;

/// The 32 bytes of a field element fit the leaf hash, and the 32 bytes of each of two digests
/// fill the two-to-one hash exactly, so neither hash refuses a tree's inputs.
pub proof fn law_field_elements_fit_the_hashes()
    ensures
        32 * 8 <= LEAF_WINDOW_SIZE * LEAF_NUM_WINDOWS,
        2 * 32 * 8 == TWO_TO_ONE_WINDOW_SIZE * TWO_TO_ONE_NUM_WINDOWS,
{
}

/// Which of a circuit's authentication paths a membership check uses.
#[derive(Clone, Copy, Debug, PartialEq, Eq, Structural)]
pub enum PathChoice {
    /// The single path of the Merkle tree circuit.
    Authentication,
    /// The path of the expiry date (or of its hash).
    Expiry,
    /// The path of the birth date (or of its hash).
    Birth,
}

/// A membership check to carry out: the chosen path must prove `leaf` (by its 32
/// little-endian bytes) a member of the tree with root `root`.
#[derive(Clone, Copy, Debug)]
pub struct MembershipRequest<F> {
    pub path: PathChoice,
    pub root: F,
    pub leaf: F,
}

/// Which of a circuit's Pedersen leaf-hash keys a hash uses.
#[derive(Clone, Copy, Debug, PartialEq, Eq, Structural)]
pub enum HashKey {
    /// The key of the birth date's commitment.
    Birth,
    /// The key of the expiry date's commitment.
    Expiry,
}

/// A leaf hash to compute: the x-coordinate of the Pedersen hash of `preimage` under `key`.
#[derive(Clone, Debug)]
pub struct HashRequest {
    pub key: HashKey,
    pub preimage: Vec<u8>,
}

} // verus!
