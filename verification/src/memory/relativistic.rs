//! Addresses that carry the epoch they were issued in.
//!
//! Within `MAXIMUM_DIRECT_EPOCH_DELTA` epochs of its origin an address is
//! used as it is; later it must be re-resolved through the kernel's mapping
//! lease, and an epoch before the origin is refused.

use vstd::prelude::*;

use core::marker::PhantomData;

verus! {

pub const MAXIMUM_DIRECT_EPOCH_DELTA: u64 = 10_000;

/// Resolves a stale address while retaining the kernel's mapping lease.
///
/// An implementation says through `resolves` which answers it may give for
/// an address issued at `origin_epoch` and asked for at `current_epoch`.
pub trait TimelineResolver<T> {
    spec fn resolves(
        &self,
        original: usize,
        origin_epoch: u64,
        current_epoch: u64,
        answer: Option<usize>,
    ) -> bool;

    fn resolve(&self, original: usize, origin_epoch: u64, current_epoch: u64) -> (r: Option<
        usize,
    >)
        ensures
            self.resolves(original, origin_epoch, current_epoch, r),
    ;
}

#[derive(Clone, Copy, Debug, PartialEq, Eq, Structural)]
pub enum RelativisticError {
    FutureEpoch,
    Revoked,
}

/// A nonzero process-local address of a `T` with its causal metadata.
pub struct RelativisticPtr<T> {
    address: usize,
    origin_epoch: u64,
    thread_velocity: u16,
    marker: PhantomData<T>,
}

impl<T> Clone for RelativisticPtr<T> {
    fn clone(&self) -> (r: RelativisticPtr<T>)
        ensures
            r.spec_address() == self.spec_address(),
            r.spec_origin_epoch() == self.spec_origin_epoch(),
            r.spec_thread_velocity() == self.spec_thread_velocity(),
    {
        RelativisticPtr {
            address: self.address,
            origin_epoch: self.origin_epoch,
            thread_velocity: self.thread_velocity,
            marker: PhantomData,
        }
    }
}

impl<T> Copy for RelativisticPtr<T> {

}

/// What resolving at `current` gives, when the resolver answers `resolved`
/// for a stale address.
pub open spec fn spec_resolution(
    address: usize,
    origin: u64,
    current: u64,
    resolved: Option<usize>,
) -> Result<usize, RelativisticError> {
    if current < origin {
        Err(RelativisticError::FutureEpoch)
    } else if current - origin <= MAXIMUM_DIRECT_EPOCH_DELTA {
        Ok(address)
    } else {
        match resolved {
            Some(a) => Ok(a),
            None => Err(RelativisticError::Revoked),
        }
    }
}

impl<T> RelativisticPtr<T> {
    pub closed spec fn spec_address(&self) -> usize {
        self.address
    }

    pub closed spec fn spec_origin_epoch(&self) -> u64 {
        self.origin_epoch
    }

    pub closed spec fn spec_thread_velocity(&self) -> u16 {
        self.thread_velocity
    }

    /// A token for a mapped, kernel-authorized object; none for address zero.
    pub fn from_raw(address: usize, origin_epoch: u64, thread_velocity: u16) -> (r: Option<
        RelativisticPtr<T>,
    >)
        ensures
            address == 0 ==> r is None,
            address != 0 ==> r is Some && r->Some_0.spec_address() == address
                && r->Some_0.spec_origin_epoch() == origin_epoch
                && r->Some_0.spec_thread_velocity() == thread_velocity,
    {
        if address == 0 {
            return None;
        }
        Some(RelativisticPtr { address, origin_epoch, thread_velocity, marker: PhantomData })
    }

    pub fn origin_epoch(&self) -> (r: u64)
        ensures
            r == self.spec_origin_epoch(),
    {
        self.origin_epoch
    }

    pub fn thread_velocity(&self) -> (r: u16)
        ensures
            r == self.spec_thread_velocity(),
    {
        self.thread_velocity
    }

    pub fn original_address(&self) -> (r: usize)
        ensures
            r == self.spec_address(),
    {
        self.address
    }

    /// The address at epoch `current_epoch`: the original one within the
    /// direct window, else what the resolver answers, which it may refuse.
    pub fn resolve<R: TimelineResolver<T>>(&self, current_epoch: u64, resolver: &R) -> (r: Result<
        usize,
        RelativisticError,
    >)
        ensures
            current_epoch < self.spec_origin_epoch() ==> r == Err::<usize, RelativisticError>(
                RelativisticError::FutureEpoch,
            ),
            self.spec_origin_epoch() <= current_epoch && current_epoch - self.spec_origin_epoch()
                <= MAXIMUM_DIRECT_EPOCH_DELTA ==> r == Ok::<usize, RelativisticError>(
                self.spec_address(),
            ),
            self.spec_origin_epoch() <= current_epoch && current_epoch - self.spec_origin_epoch()
                > MAXIMUM_DIRECT_EPOCH_DELTA ==> exists|answer: Option<usize>|
                #![trigger resolver.resolves(self.spec_address(), self.spec_origin_epoch(), current_epoch, answer)]
                resolver.resolves(
                    self.spec_address(),
                    self.spec_origin_epoch(),
                    current_epoch,
                    answer,
                ) && r == spec_resolution(
                    self.spec_address(),
                    self.spec_origin_epoch(),
                    current_epoch,
                    answer,
                ),
    {
        if current_epoch < self.origin_epoch {
            return Err(RelativisticError::FutureEpoch);
        }
        if current_epoch - self.origin_epoch <= MAXIMUM_DIRECT_EPOCH_DELTA {
            return Ok(self.address);
        }
        let answer = resolver.resolve(self.address, self.origin_epoch, current_epoch);
        let r = self.resolve_with(current_epoch, answer);
        assert(r == spec_resolution(self.spec_address(), self.spec_origin_epoch(), current_epoch, answer));
        r
    }

    /// The address at epoch `current_epoch` given the resolver's answer for
    /// a stale address.
    pub fn resolve_with(&self, current_epoch: u64, resolved: Option<usize>) -> (r: Result<
        usize,
        RelativisticError,
    >)
        ensures
            r == spec_resolution(
                self.spec_address(),
                self.spec_origin_epoch(),
                current_epoch,
                resolved,
            ),
    {
        if current_epoch < self.origin_epoch {
            return Err(RelativisticError::FutureEpoch);
        }
        if current_epoch - self.origin_epoch <= MAXIMUM_DIRECT_EPOCH_DELTA {
            return Ok(self.address);
        }
        match resolved {
            Some(a) => Ok(a),
            None => Err(RelativisticError::Revoked),
        }
    }
}

} // verus!
