//! The statement "this leaf is in the Merkle tree with this root".
//!
//! The hash parameters and the authentication path are arkworks values held by the caller,
//! who also runs the Merkle path check; its outcome is an argument of the check here.
use crate::field::FieldElement;
use crate::merkle::{MembershipRequest, PathChoice, Root};
use vstd::prelude::*;

verus! {

/// The public inputs of the circuit that proves knowledge of an authentication path from
/// `leaf` to `root`.
#[derive(Clone, Copy, Debug)]
pub struct MerkleTreeCircuit {
    pub root: Root,
    pub leaf: FieldElement,
}

impl MerkleTreeCircuit {
    /// The public inputs in the order in which the circuit allocates them,
    /// which is the order a verifier must pass them in.
    pub fn public_inputs(&self) -> (r: Vec<FieldElement>)
        ensures
            r@ == seq![self.root, self.leaf],
    {
        let mut v: Vec<FieldElement> = Vec::new();
        v.push(self.root);
        v.push(self.leaf);
        v
    }

    /// The membership check the circuit makes: the authentication path must prove `leaf`
    /// a member under `root`.
    pub fn membership_requests(&self) -> (r: Vec<MembershipRequest<FieldElement>>)
        ensures
            r@ == seq![
                MembershipRequest { path: PathChoice::Authentication, root: self.root, leaf: self.leaf },
            ],
    {
        let mut v: Vec<MembershipRequest<FieldElement>> = Vec::new();
        v.push(MembershipRequest { path: PathChoice::Authentication, root: self.root, leaf: self.leaf });
        v
    }

    /// Whether the circuit's constraints hold, given the outcome of its one membership request:
    /// that is the only condition it enforces.
    pub fn constraints_hold(&self, is_member: bool) -> (r: bool)
        ensures
            r == is_member,
    {
        is_member
    }
}

} // verus!
