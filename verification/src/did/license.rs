//! The DID licence: hidden birth and expiry dates committed by Pedersen hashes that are leaves
//! of a committed tree; the licence is unexpired and the holder's age lies strictly between
//! 19 and 30 (dates written as years).
//!
//! The Pedersen hashes and Merkle path checks are arkworks computations made by the caller;
//! their outcomes are arguments of the checks here.
use crate::field::{
    greater_in_lower_half, greater_in_lower_half_holds, half_modulus, lemma_small_difference, modulus,
    FieldElement,
};
use crate::field::{le_value, limb_bytes};
use crate::merkle::{
    HashKey, HashRequest, MembershipRequest, PathChoice, Root, LEAF_NUM_WINDOWS, LEAF_WINDOW_SIZE,
};
use vstd::prelude::*;

verus! {

/// The age must exceed this many years.
pub const CRITERION_LOW: u64 = 19;

/// The age must stay below this many years.
pub const CRITERION_HIGH: u64 = 30;

/// The values of the circuit that proves that a licence is unexpired and that its holder's age
/// lies strictly between `CRITERION_LOW` and `CRITERION_HIGH`, without revealing the dates:
/// only their Pedersen commitments, which are leaves of the tree with root `root`, are public.
#[derive(Clone, Copy, Debug)]
pub struct VroomLicenseCircuit {
    /// Public inputs.
    pub root: Root,
    pub exp_hash: FieldElement,
    pub birth_hash: FieldElement,
    pub cur_time: FieldElement,
    /// Private witness.
    pub birth: FieldElement,
    pub exp: FieldElement,
}

/// The age `cur_time - birth`, taken in the field.
pub open spec fn field_age(cur_time: nat, birth: nat) -> nat {
    ((cur_time - birth) % (modulus() as int)) as nat
}

/// The date conditions: the expiry date is after the current time, and the age lies strictly
/// between the two criteria; every compared value lies in the lower half of the field.
pub open spec fn date_conditions(birth: nat, exp: nat, cur_time: nat) -> bool {
    let age = field_age(cur_time, birth);
    &&& greater_in_lower_half(exp, cur_time)
    &&& greater_in_lower_half(age, CRITERION_LOW as nat)
    &&& greater_in_lower_half(CRITERION_HIGH as nat, age)
}

impl VroomLicenseCircuit {
    /// All field values are canonical.
    pub open spec fn wf(&self) -> bool {
        &&& self.root.wf()
        &&& self.exp_hash.wf()
        &&& self.birth_hash.wf()
        &&& self.cur_time.wf()
        &&& self.birth.wf()
        &&& self.exp.wf()
    }

    /// The relation the circuit enforces, given the x-coordinates of the Pedersen hashes
    /// of `birth` and `exp` that the circuit recomputes, and the outcome of the two
    /// membership checks.
    pub open spec fn relation(
        &self,
        predicted_birth_hash: FieldElement,
        predicted_exp_hash: FieldElement,
        exp_is_member: bool,
        birth_is_member: bool,
    ) -> bool {
        &&& self.birth_hash.value() == predicted_birth_hash.value()
        &&& self.exp_hash.value() == predicted_exp_hash.value()
        &&& exp_is_member
        &&& birth_is_member
        &&& date_conditions(self.birth.value(), self.exp.value(), self.cur_time.value())
    }

    /// The public inputs in the order in which the circuit allocates them.
    pub fn public_inputs(&self) -> (r: Vec<FieldElement>)
        ensures
            r@ == seq![self.root, self.exp_hash, self.birth_hash, self.cur_time],
    {
        let mut v: Vec<FieldElement> = Vec::new();
        v.push(self.root);
        v.push(self.exp_hash);
        v.push(self.birth_hash);
        v.push(self.cur_time);
        v
    }

    /// The leaf hashes the circuit recomputes, in the order of `constraints_hold`'s arguments:
    /// the 32 little-endian bytes of `birth` under the birth key, then those of `exp` under the
    /// expiry key. Each preimage fits the leaf hash.
    pub fn hash_requests(&self) -> (r: Vec<HashRequest>)
        ensures
            r@.len() == 2,
            r@[0].key == HashKey::Birth,
            r@[0].preimage@ == self.birth.bytes_spec(),
            le_value(r@[0].preimage@) == self.birth.value(),
            r@[1].key == HashKey::Expiry,
            r@[1].preimage@ == self.exp.bytes_spec(),
            le_value(r@[1].preimage@) == self.exp.value(),
            forall|i: int|
                0 <= i < 2 ==> (#[trigger] r@[i]).preimage@.len() * 8 <= LEAF_WINDOW_SIZE
                    * LEAF_NUM_WINDOWS,
    {
        let mut v: Vec<HashRequest> = Vec::new();
        v.push(HashRequest { key: HashKey::Birth, preimage: self.birth.to_bytes_le() });
        v.push(HashRequest { key: HashKey::Expiry, preimage: self.exp.to_bytes_le() });
        v
    }

    /// The membership checks the circuit makes, in the order of `constraints_hold`'s
    /// arguments: the expiry path must prove `exp_hash`, the birth path `birth_hash`, under
    /// `root`.
    pub fn membership_requests(&self) -> (r: Vec<MembershipRequest<FieldElement>>)
        ensures
            r@ == seq![
                MembershipRequest { path: PathChoice::Expiry, root: self.root, leaf: self.exp_hash },
                MembershipRequest { path: PathChoice::Birth, root: self.root, leaf: self.birth_hash },
            ],
    {
        let mut v: Vec<MembershipRequest<FieldElement>> = Vec::new();
        v.push(MembershipRequest { path: PathChoice::Expiry, root: self.root, leaf: self.exp_hash });
        v.push(MembershipRequest { path: PathChoice::Birth, root: self.root, leaf: self.birth_hash });
        v
    }

    /// Whether the circuit's constraints hold for its values, given the outcomes of its hash
    /// requests (`predicted_birth_hash`, `predicted_exp_hash`) and of its membership requests
    /// (`exp_is_member`, `birth_is_member`).
    pub fn constraints_hold(
        &self,
        predicted_birth_hash: &FieldElement,
        predicted_exp_hash: &FieldElement,
        exp_is_member: bool,
        birth_is_member: bool,
    ) -> (r: bool)
        requires
            self.wf(),
        ensures
            r == self.relation(
                *predicted_birth_hash,
                *predicted_exp_hash,
                exp_is_member,
                birth_is_member,
            ),
            r ==> exp_is_member && birth_is_member,
            r ==> self.birth_hash.value() == predicted_birth_hash.value(),
            r ==> self.exp_hash.value() == predicted_exp_hash.value(),
            r ==> self.cur_time.value() < self.exp.value() <= half_modulus(),
            r ==> CRITERION_LOW < (self.cur_time.value() - self.birth.value()) % (modulus() as int)
                < CRITERION_HIGH,
    {
        let hashes_match = self.birth_hash.equals(predicted_birth_hash)
            && self.exp_hash.equals(predicted_exp_hash);
        let age = self.cur_time.sub(&self.birth);
        let low = FieldElement::from_u64(CRITERION_LOW);
        let high = FieldElement::from_u64(CRITERION_HIGH);
        hashes_match && exp_is_member && birth_is_member
            && greater_in_lower_half_holds(&self.exp, &self.cur_time)
            && greater_in_lower_half_holds(&age, &low)
            && greater_in_lower_half_holds(&high, &age)
    }
}

/// Both Merkle paths must prove membership: whatever the commitments and the other outcome,
/// the constraints never hold when the expiry path or the birth path fails.
pub proof fn law_did_constraints_need_both_memberships(
    c: VroomLicenseCircuit,
    predicted_birth_hash: FieldElement,
    predicted_exp_hash: FieldElement,
    exp_is_member: bool,
    birth_is_member: bool,
)
    ensures
        c.relation(predicted_birth_hash, predicted_exp_hash, exp_is_member, birth_is_member)
            ==> exp_is_member && birth_is_member,
        !exp_is_member ==> !c.relation(
            predicted_birth_hash,
            predicted_exp_hash,
            exp_is_member,
            birth_is_member,
        ),
        !birth_is_member ==> !c.relation(
            predicted_birth_hash,
            predicted_exp_hash,
            exp_is_member,
            birth_is_member,
        ),
{
}

/// Each public commitment must be the hash the circuit recomputes from its own date: the
/// constraints never hold unless `birth_hash` equals the recomputed birth hash and `exp_hash`
/// the recomputed expiry hash.
pub proof fn law_did_constraints_need_matching_commitments(
    c: VroomLicenseCircuit,
    predicted_birth_hash: FieldElement,
    predicted_exp_hash: FieldElement,
    exp_is_member: bool,
    birth_is_member: bool,
)
    ensures
        c.relation(predicted_birth_hash, predicted_exp_hash, exp_is_member, birth_is_member)
            ==> c.birth_hash.value() == predicted_birth_hash.value() && c.exp_hash.value()
            == predicted_exp_hash.value(),
{
}

/// Whenever the constraints hold, the licence is unexpired and the age taken in the field lies
/// strictly between the two criteria.
pub proof fn law_did_constraints_bound_dates(
    c: VroomLicenseCircuit,
    predicted_birth_hash: FieldElement,
    predicted_exp_hash: FieldElement,
    exp_is_member: bool,
    birth_is_member: bool,
)
    ensures
        c.relation(predicted_birth_hash, predicted_exp_hash, exp_is_member, birth_is_member)
            ==> c.exp.value() > c.cur_time.value() && CRITERION_LOW < (c.cur_time.value()
            - c.birth.value()) % (modulus() as int) < CRITERION_HIGH,
{
}

/// An honest licence satisfies the constraints: with both commitments equal to the recomputed
/// hashes, both paths proving membership, dates that are plain integers in the lower half of
/// the field, an expiry after the current time and an age between 20 and 29, they hold.
pub proof fn law_did_constraints_hold_for_valid_licence(
    c: VroomLicenseCircuit,
    predicted_birth_hash: FieldElement,
    predicted_exp_hash: FieldElement,
)
    requires
        c.birth_hash.value() == predicted_birth_hash.value(),
        c.exp_hash.value() == predicted_exp_hash.value(),
        c.birth.value() <= c.cur_time.value() < c.exp.value() <= half_modulus(),
        20 <= c.cur_time.value() - c.birth.value() <= 29,
    ensures
        c.relation(predicted_birth_hash, predicted_exp_hash, true, true),
{
    law_date_conditions_on_plain_dates(c.birth.value(), c.exp.value(), c.cur_time.value());
}

/// The date conditions give an unexpired licence and an age strictly between the criteria:
/// whenever they hold, the expiry date exceeds the current time as integers and the age
/// taken in the field lies strictly between 19 and 30.
pub proof fn law_date_conditions_bound_age(birth: nat, exp: nat, cur_time: nat)
    requires
        date_conditions(birth, exp, cur_time),
    ensures
        exp > cur_time,
        CRITERION_LOW < field_age(cur_time, birth) < CRITERION_HIGH,
{
}

/// For dates that are ordinary integers in the lower half of the field, with the birth date
/// not after the current time, the date conditions hold exactly when the licence expires
/// after the current time and the holder is between 20 and 29 years old.
pub proof fn law_date_conditions_on_plain_dates(birth: nat, exp: nat, cur_time: nat)
    requires
        birth <= cur_time <= half_modulus(),
        exp <= half_modulus(),
    ensures
        date_conditions(birth, exp, cur_time) <==> (exp > cur_time && 20 <= cur_time - birth <= 29),
{
    lemma_small_difference(cur_time, birth, modulus());
}

} // verus!
