//! The age licence: the holder's expiry date and birth date are leaves of a committed tree,
//! and the holder is at least twenty years old (dates written as YYYYMMDD numbers).
//!
//! This circuit is written over the BLS12-381 scalar field (the base field of Jubjub): its
//! values, and the subtraction and comparisons it makes, are in that field. The Pedersen
//! hashes and Merkle path checks are arkworks computations made by the caller; their outcomes
//! are arguments of the check here.
use crate::bls_field::{
    bls_greater_in_lower_half, bls_greater_in_lower_half_holds, bls_half_modulus, bls_modulus,
    BlsScalar,
};
use crate::field::lemma_small_difference;
use crate::merkle::{MembershipRequest, PathChoice};
use vstd::prelude::*;

verus! {

/// Twenty years, less one day, in YYYYMMDD arithmetic: the age gap must exceed it.
pub const AGE_GAP_FLOOR: u64 = 199999;

/// The values of the circuit that proves that the holder of a licence whose expiry date is a
/// public leaf of the tree has a birth date, also in the tree, at least twenty years before
/// the current time.
#[derive(Clone, Copy, Debug)]
pub struct VroomLicenseCircuit {
    /// Public inputs.
    pub root: BlsScalar,
    pub leaf_exp: BlsScalar,
    pub cur_time: BlsScalar,
    /// Private witness.
    pub birth: BlsScalar,
}

/// The gap `cur_time - birth`, taken in the field.
pub open spec fn field_gap(cur_time: nat, birth: nat) -> nat {
    ((cur_time - birth) % (bls_modulus() as int)) as nat
}

/// The age condition: the gap exceeds the floor, both lying in the lower half of the field.
pub open spec fn age_condition(cur_time: nat, birth: nat) -> bool {
    bls_greater_in_lower_half(field_gap(cur_time, birth), AGE_GAP_FLOOR as nat)
}

impl VroomLicenseCircuit {
    /// All field values are canonical.
    pub open spec fn wf(&self) -> bool {
        &&& self.root.wf()
        &&& self.leaf_exp.wf()
        &&& self.cur_time.wf()
        &&& self.birth.wf()
    }

    /// The relation the circuit enforces, given the outcome of the two membership checks.
    pub open spec fn relation(&self, exp_is_member: bool, birth_is_member: bool) -> bool {
        &&& exp_is_member
        &&& birth_is_member
        &&& age_condition(self.cur_time.value(), self.birth.value())
    }

    /// The public inputs in the order in which the circuit allocates them.
    pub fn public_inputs(&self) -> (r: Vec<BlsScalar>)
        ensures
            r@ == seq![self.root, self.leaf_exp, self.cur_time],
    {
        let mut v: Vec<BlsScalar> = Vec::new();
        v.push(self.root);
        v.push(self.leaf_exp);
        v.push(self.cur_time);
        v
    }

    /// The membership checks the circuit makes, in the order of `constraints_hold`'s
    /// arguments: the expiry path must prove `leaf_exp`, the birth path `birth`, under `root`.
    pub fn membership_requests(&self) -> (r: Vec<MembershipRequest<BlsScalar>>)
        ensures
            r@ == seq![
                MembershipRequest { path: PathChoice::Expiry, root: self.root, leaf: self.leaf_exp },
                MembershipRequest { path: PathChoice::Birth, root: self.root, leaf: self.birth },
            ],
    {
        let mut v: Vec<MembershipRequest<BlsScalar>> = Vec::new();
        v.push(MembershipRequest { path: PathChoice::Expiry, root: self.root, leaf: self.leaf_exp });
        v.push(MembershipRequest { path: PathChoice::Birth, root: self.root, leaf: self.birth });
        v
    }

    /// Whether the circuit's constraints hold for its values, given the outcomes of its two
    /// membership requests (expiry first, then birth).
    pub fn constraints_hold(&self, exp_is_member: bool, birth_is_member: bool) -> (r: bool)
        requires
            self.wf(),
        ensures
            r == self.relation(exp_is_member, birth_is_member),
            r ==> exp_is_member && birth_is_member,
            r ==> AGE_GAP_FLOOR < (self.cur_time.value() - self.birth.value()) % (
            bls_modulus() as int) <= bls_half_modulus(),
    {
        let gap = self.cur_time.sub(&self.birth);
        let floor = BlsScalar::from_u64(AGE_GAP_FLOOR);
        exp_is_member && birth_is_member && bls_greater_in_lower_half_holds(&gap, &floor)
    }
}

/// Both leaves must be members of the tree: the constraints never hold when the expiry leaf
/// or the birth leaf fails its membership check, whatever the other outcome.
pub proof fn law_age_constraints_need_both_memberships(
    c: VroomLicenseCircuit,
    exp_is_member: bool,
    birth_is_member: bool,
)
    ensures
        c.relation(exp_is_member, birth_is_member) ==> exp_is_member && birth_is_member,
        !exp_is_member ==> !c.relation(exp_is_member, birth_is_member),
        !birth_is_member ==> !c.relation(exp_is_member, birth_is_member),
{
}

/// Whenever the constraints hold, the gap `cur_time - birth` taken in the field exceeds the
/// floor.
pub proof fn law_age_constraints_bound_gap(
    c: VroomLicenseCircuit,
    exp_is_member: bool,
    birth_is_member: bool,
)
    ensures
        c.relation(exp_is_member, birth_is_member) ==> (c.cur_time.value() - c.birth.value()) % (
        bls_modulus() as int) > AGE_GAP_FLOOR,
{
}

/// An honest licence satisfies the constraints: with both leaves in the tree and plain YYYYMMDD
/// dates in the lower half of the field at least twenty years apart, they hold.
pub proof fn law_age_constraints_hold_for_valid_licence(c: VroomLicenseCircuit)
    requires
        c.birth.value() <= c.cur_time.value() <= bls_half_modulus(),
        c.cur_time.value() - c.birth.value() >= 200000,
    ensures
        c.relation(true, true),
{
    law_age_condition_on_plain_dates(c.cur_time.value(), c.birth.value());
}

/// For dates that are ordinary YYYYMMDD integers in the lower half of the field, with the birth
/// date not after the current time, the age condition holds exactly when the dates are at least
/// twenty years (200000 in YYYYMMDD arithmetic) apart.
pub proof fn law_age_condition_on_plain_dates(cur_time: nat, birth: nat)
    requires
        birth <= cur_time <= bls_half_modulus(),
    ensures
        age_condition(cur_time, birth) <==> cur_time - birth >= 200000,
{
    lemma_small_difference(cur_time, birth, bls_modulus());
}

} // verus!
