//! Capability-bound host tuning observations.
//!
//! A tuning service may apply host policy, but the desktop only sees an
//! authenticated, fixed-size observation of that transaction. A record is
//! valid when every field is in range and its hash is set; it is usable
//! only when the transaction was applied, and current only for the
//! generation that is admitted now.

pub mod gpu_policy;
pub mod state;

use vstd::prelude::*;

verus! {

pub const TUNING_WIRE_VERSION: u16 = 1;
pub const MIN_THERMAL_LIMIT_MC: u32 = 20_000;
pub const MAX_THERMAL_LIMIT_MC: u32 = 200_000;

#[derive(Clone, Copy, Debug, PartialEq, Eq)]
pub struct TuningProfileLease {
    pub version: u16,
    pub state: u8,
    pub reserved: u8,
    pub generation: u64,
    pub capability: u64,
    /// Digest of the profile and platform-census inputs used to apply it.
    pub profile_hash: [u8; 32],
    pub cpu_governor: u8,
    pub gpu_policy: u8,
    pub network_policy: u8,
    pub flags: u8,
    pub thermal_limit_mc: u32,
}

/// Every byte of the digest is zero.
pub open spec fn zero_hash(hash: Seq<u8>) -> bool {
    forall|i: int| 0 <= i < hash.len() ==> hash[i] == 0
}

/// A well-formed observation.
pub open spec fn lease_valid(l: TuningProfileLease) -> bool {
    &&& l.version == TUNING_WIRE_VERSION
    &&& (l.state == state::APPLIED || l.state == state::ROLLED_BACK || l.state == state::REJECTED)
    &&& l.reserved == 0
    &&& l.generation != 0
    &&& l.capability != 0
    &&& !zero_hash(l.profile_hash@)
    &&& l.cpu_governor <= 3
    &&& l.gpu_policy <= gpu_policy::POWER_SAVE
    &&& l.network_policy <= 3
    &&& MIN_THERMAL_LIMIT_MC <= l.thermal_limit_mc <= MAX_THERMAL_LIMIT_MC
}

pub open spec fn lease_usable(l: TuningProfileLease) -> bool {
    lease_valid(l) && l.state == state::APPLIED
}

pub open spec fn lease_valid_for(l: TuningProfileLease, expected: u64) -> bool {
    expected != 0 && lease_valid(l) && l.generation == expected
}

pub open spec fn lease_usable_for(l: TuningProfileLease, expected: u64) -> bool {
    lease_valid_for(l, expected) && l.state == state::APPLIED
}

fn is_zero_hash(hash: &[u8; 32]) -> (r: bool)
    ensures
        r == zero_hash(hash@),
{
    let mut index: usize = 0;
    while index < 32
        invariant
            index <= 32,
            hash@.len() == 32,
            forall|i: int| 0 <= i < index ==> hash@[i] == 0,
        decreases 32 - index,
    {
        if hash[index] != 0 {
            return false;
        }
        index = index + 1;
    }
    true
}

impl TuningProfileLease {
    pub fn valid(self) -> (r: bool)
        ensures
            r == lease_valid(self),
    {
        self.version == TUNING_WIRE_VERSION && (self.state == state::APPLIED || self.state
            == state::ROLLED_BACK || self.state == state::REJECTED) && self.reserved == 0
            && self.generation != 0 && self.capability != 0 && !is_zero_hash(&self.profile_hash)
            && self.cpu_governor <= 3 && self.gpu_policy <= gpu_policy::POWER_SAVE
            && self.network_policy <= 3 && self.thermal_limit_mc >= MIN_THERMAL_LIMIT_MC
            && self.thermal_limit_mc <= MAX_THERMAL_LIMIT_MC
    }

    pub fn is_usable(self) -> (r: bool)
        ensures
            r == lease_usable(self),
    {
        self.valid() && self.state == state::APPLIED
    }

    /// Validates the lease against the generation admitted now: a
    /// well-formed record of an older transaction is stale.
    pub fn valid_for_generation(self, expected_generation: u64) -> (r: bool)
        ensures
            r == lease_valid_for(self, expected_generation),
    {
        expected_generation != 0 && self.valid() && self.generation == expected_generation
    }

    pub fn is_usable_for_generation(self, expected_generation: u64) -> (r: bool)
        ensures
            r == lease_usable_for(self, expected_generation),
    {
        self.valid_for_generation(expected_generation) && self.state == state::APPLIED
    }
}

/// Only an applied, well-formed observation of the admitted generation is
/// usable: a rolled-back or rejected transaction, another generation, the
/// zero generation or an unset digest never are.
pub proof fn lemma_usable_lease_is_current(l: TuningProfileLease, expected: u64)
    ensures
        lease_usable_for(l, expected) ==> lease_usable(l) && l.generation == expected
            && expected != 0,
        lease_usable(l) ==> lease_valid(l),
        l.state != state::APPLIED ==> !lease_usable(l) && !lease_usable_for(l, expected),
        zero_hash(l.profile_hash@) ==> !lease_valid(l),
        !lease_valid_for(l, 0),
{
}

} // verus!
