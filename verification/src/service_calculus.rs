//! Bounded min-plus service calculus with online conformal calibration.
//!
//! The controller combines a deterministic rate-latency service curve, a
//! bounded arrival envelope and a one-sided conformal residual guard learned
//! from completed work. Admission is allowed only when the complete
//! risk-adjusted delay bound fits inside the caller's deadline.

use vstd::prelude::*;
use vstd::relations::{sorted_by, total_ordering};

verus! {

pub const Q16_ONE: u64 = 65536;
pub const DEFAULT_CONFORMAL_NUMERATOR: u8 = 15;
pub const DEFAULT_CONFORMAL_DENOMINATOR: u8 = 16;

pub const MIX_WORD: u64 = 0x9e37_79b9_7f4a_7c15;
pub const MIX_FIRST: u64 = 0xbf58_476d_1ce4_e5b9;
pub const MIX_SECOND: u64 = 0x94d0_49bb_1331_11eb;
pub const CALIBRATOR_DOMAIN: u64 = 0x4341_4c49_4252_4154;

// ---------------------------------------------------------------------------
// Mixing

/// One absorption step of the keyed root: the word is spread, then the
/// state goes through a three-round avalanche.
#[verifier::opaque]
pub open spec fn spec_mix(state: u64, word: u64) -> u64 {
    let s1 = state ^ word.wrapping_mul(MIX_WORD);
    let s2 = s1 ^ (s1 >> 30u64);
    let s3 = s2.wrapping_mul(MIX_FIRST);
    let s4 = s3 ^ (s3 >> 27u64);
    let s5 = s4.wrapping_mul(MIX_SECOND);
    s5 ^ (s5 >> 31u64)
}

pub fn mix(state: u64, word: u64) -> (r: u64)
    ensures
        r == spec_mix(state, word),
{
    reveal(spec_mix);
    let mut s = state ^ word.wrapping_mul(MIX_WORD);
    s = s ^ (s >> 30u64);
    s = s.wrapping_mul(MIX_FIRST);
    s = s ^ (s >> 27u64);
    s = s.wrapping_mul(MIX_SECOND);
    s ^ (s >> 31u64)
}

/// Absorbs every word of `words`, first to last.
pub open spec fn mix_all(state: u64, words: Seq<u64>) -> u64
    decreases words.len(),
{
    if words.len() == 0 {
        state
    } else {
        spec_mix(mix_all(state, words.drop_last()), words.last())
    }
}

// ---------------------------------------------------------------------------
// Service curves

#[derive(Clone, Copy, Debug, PartialEq, Eq, Structural)]
pub struct ServiceCurve {
    /// Smallest number of completions guaranteed in one service window.
    pub minimum_completions_per_window: u16,
    /// Largest number of new jobs admitted in one service window.
    pub maximum_admissions_per_window: u16,
    /// Service-window duration in platform ticks.
    pub window_ticks: u64,
    /// Fixed device, scheduler or transport latency in platform ticks.
    pub latency_ticks: u64,
    /// Maximum live backlog admitted by policy.
    pub maximum_backlog: u16,
}

pub open spec fn curve_valid(c: ServiceCurve) -> bool {
    &&& c.minimum_completions_per_window != 0
    &&& c.maximum_admissions_per_window != 0
    &&& c.window_ticks != 0
    &&& c.maximum_backlog != 0
    &&& c.minimum_completions_per_window <= c.maximum_backlog
    &&& c.maximum_admissions_per_window <= c.maximum_backlog
}

/// The smallest number of whole windows that serve `demand` jobs at
/// `rate` completions per window.
pub open spec fn windows_for(demand: int, rate: int) -> int {
    (demand + rate - 1) / rate
}

/// The min-plus horizontal deviation for one new job behind
/// `backlog_before` jobs: the latency plus the whole windows needed to
/// serve the backlog and the new job; `None` for an invalid curve, a
/// saturated backlog or a bound past `u64::MAX`.
pub open spec fn spec_deterministic_delay(c: ServiceCurve, backlog_before: int) -> Option<u64> {
    if !curve_valid(c) || backlog_before >= c.maximum_backlog {
        None
    } else {
        let windows = windows_for(backlog_before + 1, c.minimum_completions_per_window as int);
        let span = windows * c.window_ticks;
        if span > u64::MAX || c.latency_ticks + span > u64::MAX {
            None
        } else {
            Some((c.latency_ticks + span) as u64)
        }
    }
}

impl ServiceCurve {
    pub fn valid(self) -> (r: bool)
        ensures
            r == curve_valid(self),
    {
        self.minimum_completions_per_window != 0 && self.maximum_admissions_per_window != 0
            && self.window_ticks != 0 && self.maximum_backlog != 0
            && self.minimum_completions_per_window <= self.maximum_backlog
            && self.maximum_admissions_per_window <= self.maximum_backlog
    }

    /// Deterministic min-plus horizontal-deviation bound for one new job.
    pub fn deterministic_delay(self, backlog_before: usize) -> (r: Option<u64>)
        ensures
            r == spec_deterministic_delay(self, backlog_before as int),
    {
        if !self.valid() || backlog_before >= self.maximum_backlog as usize {
            return None;
        }
        let demand: u64 = backlog_before as u64 + 1;
        let service = self.minimum_completions_per_window as u64;
        let windows = (demand + (service - 1)) / service;
        let span = match windows.checked_mul(self.window_ticks) {
            Some(v) => v,
            None => {
                return None;
            },
        };
        self.latency_ticks.checked_add(span)
    }
}

// ---------------------------------------------------------------------------
// Conformal calibration

#[derive(Clone, Copy, Debug, PartialEq, Eq, Structural)]
pub enum CalibrationFault {
    ZeroCapacity,
    InvalidCoverage,
    TimeRegression,
    ArithmeticOverflow,
    CorruptCertificate,
}

/// The ascending order on residuals.
pub open spec fn residual_leq() -> spec_fn(u64, u64) -> bool {
    |a: u64, b: u64| a <= b
}

/// The retained residuals in ascending order.
pub open spec fn sorted_window(s: Seq<u64>) -> Seq<u64> {
    s.sort_by(residual_leq())
}

/// The observable state of a calibrator.
pub struct CalibratorState {
    pub residuals: Seq<u64>,
    pub length: usize,
    pub cursor: usize,
    pub samples: u64,
    pub coverage_numerator: u8,
    pub coverage_denominator: u8,
    pub additive_slack: u64,
    pub maximum_guard: u64,
    pub secret: u64,
    pub root: u64,
}

/// The keyed root over every observable field and the retained residuals.
pub open spec fn spec_calibrator_root(c: CalibratorState) -> u64 {
    let s1 = spec_mix(c.secret, c.samples);
    let s2 = spec_mix(s1, c.length as u64);
    let s3 = spec_mix(s2, c.cursor as u64);
    let s4 = spec_mix(
        s3,
        (c.coverage_numerator as u64) | ((c.coverage_denominator as u64) << 8u64),
    );
    let s5 = spec_mix(s4, c.additive_slack);
    let s6 = spec_mix(s5, c.maximum_guard);
    mix_all(s6, c.residuals.take(c.length as int))
}

/// The conformal guard: the residual of conformal rank among the retained
/// ones, plus the additive slack, capped at the maximum guard; the slack
/// alone (capped) while nothing is retained.
pub open spec fn spec_guard(c: CalibratorState) -> Result<u64, CalibrationFault> {
    if c.length == 0 {
        Ok(
            if c.additive_slack <= c.maximum_guard {
                c.additive_slack
            } else {
                c.maximum_guard
            },
        )
    } else {
        let numerator = (c.length + 1) * c.coverage_numerator;
        let bumped = numerator + c.coverage_denominator - 1;
        if c.length + 1 > usize::MAX || numerator > usize::MAX || bumped > usize::MAX {
            Err(CalibrationFault::ArithmeticOverflow)
        } else {
            let rank = bumped / (c.coverage_denominator as int);
            let below = if rank >= 1 {
                rank - 1
            } else {
                0
            };
            let index = if below <= c.length - 1 {
                below
            } else {
                c.length - 1
            };
            let value = sorted_window(c.residuals.take(c.length as int))[index];
            if value + c.additive_slack > u64::MAX {
                Err(CalibrationFault::ArithmeticOverflow)
            } else if value + c.additive_slack <= c.maximum_guard {
                Ok((value + c.additive_slack) as u64)
            } else {
                Ok(c.maximum_guard)
            }
        }
    }
}

/// The calibrator after absorbing one residual: the residual, capped at the
/// maximum guard, overwrites the oldest slot of the ring.
pub open spec fn spec_push(c: CalibratorState, residual: u64, n: usize) -> CalibratorState {
    let bounded = if residual <= c.maximum_guard {
        residual
    } else {
        c.maximum_guard
    };
    let grown = c.length.saturating_add(1);
    let unsealed = CalibratorState {
        residuals: c.residuals.update(c.cursor as int, bounded),
        cursor: ((c.cursor + 1) % (n as int)) as usize,
        length: if grown <= n {
            grown
        } else {
            n
        },
        samples: c.samples.saturating_add(1),
        ..c
    };
    CalibratorState { root: spec_calibrator_root(unsealed), ..unsealed }
}

/// Fixed-capacity one-sided split-conformal residual calibrator.
///
/// Only positive underprediction residuals are retained, so the order
/// statistic it returns is a direct safety guard.
#[derive(Clone, Debug)]
pub struct ResidualCalibrator<const N: usize> {
    residuals: Vec<u64>,
    length: usize,
    cursor: usize,
    samples: u64,
    coverage_numerator: u8,
    coverage_denominator: u8,
    additive_slack: u64,
    maximum_guard: u64,
    secret: u64,
    root: u64,
}

impl<const N: usize> View for ResidualCalibrator<N> {
    type V = CalibratorState;

    closed spec fn view(&self) -> CalibratorState {
        CalibratorState {
            residuals: self.residuals@,
            length: self.length,
            cursor: self.cursor,
            samples: self.samples,
            coverage_numerator: self.coverage_numerator,
            coverage_denominator: self.coverage_denominator,
            additive_slack: self.additive_slack,
            maximum_guard: self.maximum_guard,
            secret: self.secret,
            root: self.root,
        }
    }
}

/// The shape every calibrator keeps: a ring of `n` slots, a valid
/// coverage fraction, a nonzero cap and secret, and a root that matches.
pub open spec fn calibrator_wf(c: CalibratorState, n: usize) -> bool {
    &&& n > 0
    &&& c.residuals.len() == n
    &&& c.length <= n
    &&& c.cursor < n
    &&& 0 < c.coverage_numerator < c.coverage_denominator
    &&& c.maximum_guard != 0
    &&& c.secret != 0
    &&& c.root == spec_calibrator_root(c)
}

/// The empty calibrator sealed for its parameters.
pub open spec fn fresh_calibrator(
    n: usize,
    numerator: u8,
    denominator: u8,
    slack: u64,
    maximum_guard: u64,
    secret: u64,
) -> CalibratorState {
    let c = CalibratorState {
        residuals: Seq::new(n as nat, |i: int| 0u64),
        length: 0,
        cursor: 0,
        samples: 0,
        coverage_numerator: numerator,
        coverage_denominator: denominator,
        additive_slack: slack,
        maximum_guard,
        secret,
        root: 0,
    };
    CalibratorState { root: spec_calibrator_root(c), ..c }
}

proof fn lemma_leq_total()
    ensures
        total_ordering(residual_leq()),
{
    let leq = residual_leq();
    assert(vstd::relations::reflexive(leq));
    assert(vstd::relations::antisymmetric(leq));
    assert(vstd::relations::transitive(leq));
    assert(vstd::relations::strongly_connected(leq));
}

/// The first `len` residuals of `v`, in ascending order.
fn sorted_prefix(v: &Vec<u64>, len: usize) -> (r: Vec<u64>)
    requires
        len <= v.len(),
    ensures
        r@ == sorted_window(v@.take(len as int)),
        r@.len() == len,
{
    let mut out: Vec<u64> = Vec::new();
    proof {
        broadcast use vstd::seq_lib::group_to_multiset_ensures;

        assert(v@.take(0) =~= Seq::<u64>::empty());
        assert(out@ =~= Seq::<u64>::empty());
    }
    let mut i: usize = 0;
    while i < len
        invariant
            len <= v.len(),
            i <= len,
            out@.len() == i,
            sorted_by(out@, residual_leq()),
            out@.to_multiset() == v@.take(i as int).to_multiset(),
        decreases len - i,
    {
        let x = v[i];
        let mut p: usize = 0;
        while p < out.len() && out[p] <= x
            invariant
                p <= out@.len(),
                forall|j: int| 0 <= j < p ==> out@[j] <= x,
            decreases out@.len() - p,
        {
            p = p + 1;
        }
        let ghost before = out@;
        out.insert(p, x);
        proof {
            broadcast use vstd::seq_lib::group_to_multiset_ensures;

            assert(forall|j: int| p <= j < before.len() ==> x < before[j]) by {
                assert forall|j: int| p <= j < before.len() implies x < before[j] by {
                    assert(residual_leq()(before[p as int], before[j]));
                }
            }
            assert forall|a: int, b: int| 0 <= a < b < out@.len() implies #[trigger] residual_leq()(
                out@[a],
                out@[b],
            ) by {
                if b < p {
                    assert(residual_leq()(before[a], before[b]));
                } else if b == p {
                } else if a < p {
                    assert(out@[b] == before[b - 1]);
                } else if a == p {
                    assert(out@[b] == before[b - 1]);
                } else {
                    assert(residual_leq()(before[a - 1], before[b - 1]));
                }
            }
            assert(v@.take(i + 1) =~= v@.take(i as int).push(x));
        }
        i = i + 1;
    }
    proof {
        let t = v@.take(len as int);
        lemma_leq_total();
        t.lemma_sort_by_ensures(residual_leq());
        vstd::seq_lib::lemma_sorted_unique(out@, t.sort_by(residual_leq()), residual_leq());
    }
    out
}

impl<const N: usize> ResidualCalibrator<N> {
    pub closed spec fn wf(&self) -> bool {
        &&& calibrator_wf(self@, N)
        &&& self.residuals@.len() == N
    }

    /// Builds an empty calibrator with coverage `numerator/denominator`,
    /// which must lie strictly between 0 and 1.
    pub fn new(
        coverage_numerator: u8,
        coverage_denominator: u8,
        additive_slack: u64,
        maximum_guard: u64,
        secret: u64,
    ) -> (r: Result<ResidualCalibrator<N>, CalibrationFault>)
        ensures
            N == 0 ==> r == Err::<ResidualCalibrator<N>, CalibrationFault>(
                CalibrationFault::ZeroCapacity,
            ),
            N != 0 && (coverage_numerator == 0 || coverage_denominator == 0 || coverage_numerator
                >= coverage_denominator || maximum_guard == 0 || secret == 0) ==> r == Err::<
                ResidualCalibrator<N>,
                CalibrationFault,
            >(CalibrationFault::InvalidCoverage),
            r is Ok ==> r->Ok_0.wf() && r->Ok_0@ == fresh_calibrator(
                N,
                coverage_numerator,
                coverage_denominator,
                additive_slack,
                maximum_guard,
                secret,
            ),
            r is Ok <==> N != 0 && 0 < coverage_numerator < coverage_denominator && maximum_guard
                != 0 && secret != 0,
    {
        if N == 0 {
            return Err(CalibrationFault::ZeroCapacity);
        }
        if coverage_numerator == 0 || coverage_denominator == 0 || coverage_numerator
            >= coverage_denominator || maximum_guard == 0 || secret == 0 {
            return Err(CalibrationFault::InvalidCoverage);
        }
        let mut residuals: Vec<u64> = Vec::new();
        let mut i: usize = 0;
        while i < N
            invariant
                i <= N,
                residuals@ == Seq::new(i as nat, |j: int| 0u64),
            decreases N - i,
        {
            residuals.push(0);
            i = i + 1;
        }
        let mut calibrator = ResidualCalibrator {
            residuals,
            length: 0,
            cursor: 0,
            samples: 0,
            coverage_numerator,
            coverage_denominator,
            additive_slack,
            maximum_guard,
            secret,
            root: 0,
        };
        calibrator.seal();
        Ok(calibrator)
    }

    /// A calibrator at the kernel's default coverage of fifteen sixteenths.
    pub fn kernel_default(additive_slack: u64, maximum_guard: u64, secret: u64) -> (r: Result<
        ResidualCalibrator<N>,
        CalibrationFault,
    >)
        ensures
            N == 0 ==> r == Err::<ResidualCalibrator<N>, CalibrationFault>(
                CalibrationFault::ZeroCapacity,
            ),
            N != 0 && (maximum_guard == 0 || secret == 0) ==> r == Err::<
                ResidualCalibrator<N>,
                CalibrationFault,
            >(CalibrationFault::InvalidCoverage),
            r is Ok ==> r->Ok_0.wf() && r->Ok_0@ == fresh_calibrator(
                N,
                DEFAULT_CONFORMAL_NUMERATOR,
                DEFAULT_CONFORMAL_DENOMINATOR,
                additive_slack,
                maximum_guard,
                secret,
            ),
            r is Ok <==> N != 0 && maximum_guard != 0 && secret != 0,
    {
        Self::new(
            DEFAULT_CONFORMAL_NUMERATOR,
            DEFAULT_CONFORMAL_DENOMINATOR,
            additive_slack,
            maximum_guard,
            secret,
        )
    }

    pub fn samples(&self) -> (r: u64)
        ensures
            r == self@.samples,
    {
        self.samples
    }

    pub fn retained(&self) -> (r: usize)
        ensures
            r == self@.length,
    {
        self.length
    }

    pub fn root(&self) -> (r: u64)
        ensures
            r == self@.root,
    {
        self.root
    }

    /// Absorbs one residual and returns the new guard.
    pub fn push(&mut self, residual: u64) -> (r: Result<u64, CalibrationFault>)
        requires
            old(self).wf(),
        ensures
            final(self).wf(),
            final(self)@ == spec_push(old(self)@, residual, N),
            r == spec_guard(final(self)@),
    {
        let bounded = if residual <= self.maximum_guard {
            residual
        } else {
            self.maximum_guard
        };
        let cursor = self.cursor;
        self.residuals.set(cursor, bounded);
        self.cursor = (cursor + 1) % N;
        let grown = self.length.saturating_add(1);
        self.length = if grown <= N {
            grown
        } else {
            N
        };
        self.samples = self.samples.saturating_add(1);
        self.seal();
        self.guard()
    }

    /// The conformal guard over the retained residuals.
    pub fn guard(&self) -> (r: Result<u64, CalibrationFault>)
        requires
            self.wf(),
        ensures
            r == spec_guard(self@),
    {
        if self.length == 0 {
            return Ok(
                if self.additive_slack <= self.maximum_guard {
                    self.additive_slack
                } else {
                    self.maximum_guard
                },
            );
        }
        let sorted = sorted_prefix(&self.residuals, self.length);
        let plus_one = match self.length.checked_add(1) {
            Some(v) => v,
            None => {
                return Err(CalibrationFault::ArithmeticOverflow);
            },
        };
        let numerator = match plus_one.checked_mul(self.coverage_numerator as usize) {
            Some(v) => v,
            None => {
                return Err(CalibrationFault::ArithmeticOverflow);
            },
        };
        let denominator = self.coverage_denominator as usize;
        let bumped = match numerator.checked_add(denominator - 1) {
            Some(v) => v,
            None => {
                return Err(CalibrationFault::ArithmeticOverflow);
            },
        };
        let rank = bumped / denominator;
        let below = rank.saturating_sub(1);
        let index = if below <= self.length - 1 {
            below
        } else {
            self.length - 1
        };
        let value = sorted[index];
        match value.checked_add(self.additive_slack) {
            None => Err(CalibrationFault::ArithmeticOverflow),
            Some(v) => Ok(
                if v <= self.maximum_guard {
                    v
                } else {
                    self.maximum_guard
                },
            ),
        }
    }

    /// The stored root is the root of the current state.
    pub fn verify_root(&self) -> (r: bool)
        requires
            self@.residuals.len() == N,
            self@.length <= N,
        ensures
            r == (self@.root == spec_calibrator_root(self@)),
    {
        self.root == calibrator_root(self)
    }

    fn seal(&mut self)
        requires
            old(self).residuals@.len() == N,
            old(self).length <= N,
        ensures
            final(self)@ == (CalibratorState { root: spec_calibrator_root(old(self)@), ..old(self)@ }),
    {
        self.root = calibrator_root(self);
    }
}

fn calibrator_root<const N: usize>(c: &ResidualCalibrator<N>) -> (r: u64)
    requires
        c.residuals@.len() == N,
        c.length <= N,
    ensures
        r == spec_calibrator_root(c@),
{
    let mut state = mix(c.secret, c.samples);
    state = mix(state, c.length as u64);
    state = mix(state, c.cursor as u64);
    state = mix(
        state,
        (c.coverage_numerator as u64) | ((c.coverage_denominator as u64) << 8u64),
    );
    state = mix(state, c.additive_slack);
    state = mix(state, c.maximum_guard);
    let ghost start = state;
    let mut i: usize = 0;
    while i < c.length
        invariant
            c.residuals@.len() == N,
            c.length <= N,
            i <= c.length,
            state == mix_all(start, c.residuals@.take(i as int)),
        decreases c.length - i,
    {
        proof {
            assert(c.residuals@.take(i + 1).drop_last() =~= c.residuals@.take(i as int));
        }
        state = mix(state, c.residuals[i]);
        i = i + 1;
    }
    state
}

// ---------------------------------------------------------------------------
// Admission

#[derive(Clone, Copy, Debug, PartialEq, Eq, Structural)]
pub enum AdmissionFault {
    InvalidCurve,
    BacklogSaturated,
    ArrivalEnvelopeExceeded,
    DeadlineUnsafe,
    TimeRegression,
    ArithmeticOverflow,
    StaleReservation,
    CorruptObservation,
}

#[derive(Clone, Copy, Debug, PartialEq, Eq, Structural)]
pub struct AdmissionCertificate {
    pub reservation_sequence: u64,
    pub admitted_tick: u64,
    pub window_start: u64,
    pub backlog_before: u16,
    pub admitted_before: u16,
    pub deterministic_delay_ticks: u64,
    pub uncertainty_guard_ticks: u64,
    pub drift_penalty_ticks: u64,
    pub delay_bound_ticks: u64,
    pub deadline_slack_ticks: u64,
    pub curve_root: u64,
    pub calibration_root: u64,
    pub certificate_root: u64,
}

pub open spec fn certificate_valid(c: AdmissionCertificate) -> bool {
    &&& c.reservation_sequence != 0
    &&& c.delay_bound_ticks != 0
    &&& c.curve_root != 0
    &&& c.calibration_root != 0
    &&& c.certificate_root != 0
}

impl AdmissionCertificate {
    /// The all-zero certificate, which is never valid.
    pub fn empty() -> (r: AdmissionCertificate)
        ensures
            r.reservation_sequence == 0 && r.certificate_root == 0,
            !certificate_valid(r),
    {
        AdmissionCertificate {
            reservation_sequence: 0,
            admitted_tick: 0,
            window_start: 0,
            backlog_before: 0,
            admitted_before: 0,
            deterministic_delay_ticks: 0,
            uncertainty_guard_ticks: 0,
            drift_penalty_ticks: 0,
            delay_bound_ticks: 0,
            deadline_slack_ticks: 0,
            curve_root: 0,
            calibration_root: 0,
            certificate_root: 0,
        }
    }

    pub fn valid(self) -> (r: bool)
        ensures
            r == certificate_valid(self),
    {
        self.reservation_sequence != 0 && self.delay_bound_ticks != 0 && self.curve_root != 0
            && self.calibration_root != 0 && self.certificate_root != 0
    }
}

pub open spec fn spec_service_curve_root(secret: u64, c: ServiceCurve) -> u64 {
    let s1 = spec_mix(secret, c.minimum_completions_per_window as u64);
    let s2 = spec_mix(s1, c.maximum_admissions_per_window as u64);
    let s3 = spec_mix(s2, c.window_ticks);
    let s4 = spec_mix(s3, c.latency_ticks);
    spec_mix(s4, c.maximum_backlog as u64)
}

/// The keyed root over every field of a certificate but its own root.
pub open spec fn spec_certificate_root(secret: u64, c: AdmissionCertificate) -> u64 {
    let s1 = spec_mix(secret, c.reservation_sequence);
    let s2 = spec_mix(s1, c.admitted_tick);
    let s3 = spec_mix(s2, c.window_start);
    let s4 = spec_mix(s3, (c.backlog_before as u64) | ((c.admitted_before as u64) << 16u64));
    let s5 = spec_mix(s4, c.deterministic_delay_ticks);
    let s6 = spec_mix(s5, c.uncertainty_guard_ticks);
    let s7 = spec_mix(s6, c.drift_penalty_ticks);
    let s8 = spec_mix(s7, c.delay_bound_ticks);
    let s9 = spec_mix(s8, c.deadline_slack_ticks);
    let s10 = spec_mix(s9, c.curve_root);
    spec_mix(s10, c.calibration_root)
}

pub fn service_curve_root(secret: u64, curve: ServiceCurve) -> (r: u64)
    ensures
        r == spec_service_curve_root(secret, curve),
{
    let mut state = mix(secret, curve.minimum_completions_per_window as u64);
    state = mix(state, curve.maximum_admissions_per_window as u64);
    state = mix(state, curve.window_ticks);
    state = mix(state, curve.latency_ticks);
    mix(state, curve.maximum_backlog as u64)
}

pub fn admission_certificate_root(secret: u64, certificate: AdmissionCertificate) -> (r: u64)
    ensures
        r == spec_certificate_root(secret, certificate),
{
    let mut state = mix(secret, certificate.reservation_sequence);
    state = mix(state, certificate.admitted_tick);
    state = mix(state, certificate.window_start);
    state = mix(
        state,
        (certificate.backlog_before as u64) | ((certificate.admitted_before as u64) << 16u64),
    );
    state = mix(state, certificate.deterministic_delay_ticks);
    state = mix(state, certificate.uncertainty_guard_ticks);
    state = mix(state, certificate.drift_penalty_ticks);
    state = mix(state, certificate.delay_bound_ticks);
    state = mix(state, certificate.deadline_slack_ticks);
    state = mix(state, certificate.curve_root);
    mix(state, certificate.calibration_root)
}

/// The observable state of a service controller.
pub struct ControllerState {
    pub curve: ServiceCurve,
    pub secret: u64,
    pub window_start: u64,
    pub last_tick: u64,
    pub admitted_in_window: u16,
    pub reservation_sequence: u64,
    pub accepted: u64,
    pub rejected: u64,
    pub observed: u64,
    pub virtual_backlog_q16: u64,
    pub curve_root: u64,
    pub calibrator: CalibratorState,
}

/// The controller after a refusal is counted.
pub open spec fn spec_reject(s: ControllerState) -> ControllerState {
    ControllerState { rejected: s.rejected.saturating_add(1), ..s }
}

/// Moves the controller's clock to `now`: time may not run backwards; each
/// whole window that has passed resets the admission count and drains the
/// virtual backlog by the guaranteed service.
pub open spec fn spec_advance(s: ControllerState, now: u64) -> (ControllerState, Result<
    (),
    AdmissionFault,
>) {
    if now < s.last_tick || now < s.window_start {
        (spec_reject(s), Err(AdmissionFault::TimeRegression))
    } else {
        let elapsed = now - s.window_start;
        if elapsed >= s.curve.window_ticks {
            let windows = elapsed / (s.curve.window_ticks as int);
            let moved = ControllerState {
                window_start: (s.window_start + windows * s.curve.window_ticks) as u64,
                admitted_in_window: 0,
                ..s
            };
            let served = windows * s.curve.minimum_completions_per_window;
            if served > u64::MAX || served * Q16_ONE > u64::MAX {
                (moved, Err(AdmissionFault::ArithmeticOverflow))
            } else {
                (
                    ControllerState {
                        virtual_backlog_q16: moved.virtual_backlog_q16.saturating_sub(
                            (served * Q16_ONE) as u64,
                        ),
                        last_tick: now,
                        ..moved
                    },
                    Ok(()),
                )
            }
        } else {
            (ControllerState { last_tick: now, ..s }, Ok(()))
        }
    }
}

/// The drift penalty: the windows needed to serve the whole jobs of the
/// virtual backlog, saturating.
pub open spec fn spec_drift_penalty(s: ControllerState) -> u64 {
    let jobs = s.virtual_backlog_q16 / Q16_ONE;
    if jobs == 0 {
        0
    } else {
        let service = s.curve.minimum_completions_per_window as u64;
        let windows = jobs.saturating_add((service - 1) as u64) / service;
        saturating_product(windows, s.curve.window_ticks)
    }
}

/// The product of two words, saturating at `u64::MAX`.
pub open spec fn saturating_product(a: u64, b: u64) -> u64 {
    if a * b > u64::MAX {
        u64::MAX
    } else {
        (a * b) as u64
    }
}

fn saturating_mul(a: u64, b: u64) -> (r: u64)
    ensures
        r == saturating_product(a, b),
{
    match a.checked_mul(b) {
        Some(v) => v,
        None => u64::MAX,
    }
}

/// The next reservation sequence number: it wraps around past zero to one.
pub open spec fn next_reservation(n: u64) -> u64 {
    if n == u64::MAX {
        1
    } else {
        (n + 1) as u64
    }
}

/// The certificate for an admitted job, before its own root is set.
pub open spec fn unsealed_certificate(
    s: ControllerState,
    now: u64,
    deadline: u64,
    backlog_before: int,
    admitted_before: u16,
    deterministic: u64,
    uncertainty: u64,
    drift: u64,
) -> AdmissionCertificate {
    let delay = deterministic + uncertainty + drift;
    AdmissionCertificate {
        reservation_sequence: s.reservation_sequence,
        admitted_tick: now,
        window_start: s.window_start,
        backlog_before: backlog_before as u16,
        admitted_before,
        deterministic_delay_ticks: deterministic,
        uncertainty_guard_ticks: uncertainty,
        drift_penalty_ticks: drift,
        delay_bound_ticks: delay as u64,
        deadline_slack_ticks: (deadline - (now + delay)) as u64,
        curve_root: s.curve_root,
        calibration_root: s.calibrator.root,
        certificate_root: 0,
    }
}

/// What one admission request does to the controller and returns.
pub open spec fn spec_admit(s: ControllerState, now: u64, deadline: u64, backlog_before: int) -> (
    ControllerState,
    Result<AdmissionCertificate, AdmissionFault>,
) {
    let (a, advanced) = spec_advance(s, now);
    if advanced is Err {
        (a, Err(advanced->Err_0))
    } else if backlog_before >= a.curve.maximum_backlog {
        (spec_reject(a), Err(AdmissionFault::BacklogSaturated))
    } else if a.admitted_in_window >= a.curve.maximum_admissions_per_window {
        (spec_reject(a), Err(AdmissionFault::ArrivalEnvelopeExceeded))
    } else {
        match spec_deterministic_delay(a.curve, backlog_before) {
            None => (a, Err(AdmissionFault::BacklogSaturated)),
            Some(deterministic) => match spec_guard(a.calibrator) {
                Err(_) => (a, Err(AdmissionFault::ArithmeticOverflow)),
                Ok(uncertainty) => {
                    let drift = spec_drift_penalty(a);
                    let delay = deterministic + uncertainty + drift;
                    if deterministic + uncertainty > u64::MAX || delay > u64::MAX || now + delay
                        > u64::MAX {
                        (a, Err(AdmissionFault::ArithmeticOverflow))
                    } else if deadline < now + delay {
                        (spec_reject(a), Err(AdmissionFault::DeadlineUnsafe))
                    } else {
                        let b = ControllerState {
                            admitted_in_window: (a.admitted_in_window + 1) as u16,
                            reservation_sequence: next_reservation(a.reservation_sequence),
                            accepted: a.accepted.saturating_add(1),
                            virtual_backlog_q16: a.virtual_backlog_q16.saturating_add(Q16_ONE),
                            ..a
                        };
                        let c = unsealed_certificate(
                            b,
                            now,
                            deadline,
                            backlog_before,
                            a.admitted_in_window,
                            deterministic,
                            uncertainty,
                            drift,
                        );
                        (
                            b,
                            Ok(
                                AdmissionCertificate {
                                    certificate_root: spec_certificate_root(b.secret, c),
                                    ..c
                                },
                            ),
                        )
                    }
                },
            },
        }
    }
}

/// The certificate is valid, for this curve, and sealed under this secret.
pub open spec fn spec_verify_certificate(s: ControllerState, c: AdmissionCertificate) -> bool {
    &&& certificate_valid(c)
    &&& c.curve_root == s.curve_root
    &&& c.certificate_root == spec_certificate_root(s.secret, c)
}

/// What rolling back the latest reservation does and returns.
pub open spec fn spec_rollback(s: ControllerState, c: AdmissionCertificate) -> (
    ControllerState,
    Result<(), AdmissionFault>,
) {
    if !spec_verify_certificate(s, c) || c.window_start != s.window_start
        || c.reservation_sequence != s.reservation_sequence || s.admitted_in_window
        != c.admitted_before.saturating_add(1) {
        (s, Err(AdmissionFault::StaleReservation))
    } else {
        (
            ControllerState {
                admitted_in_window: c.admitted_before,
                accepted: s.accepted.saturating_sub(1),
                virtual_backlog_q16: s.virtual_backlog_q16.saturating_sub(Q16_ONE),
                ..s
            },
            Ok(()),
        )
    }
}

/// What recording a completion does and returns.
pub open spec fn spec_observe_completion(
    s: ControllerState,
    c: AdmissionCertificate,
    completion: u64,
    n: usize,
) -> (ControllerState, Result<u64, AdmissionFault>) {
    if !spec_verify_certificate(s, c) || completion < c.admitted_tick {
        (s, Err(AdmissionFault::CorruptObservation))
    } else {
        let (a, advanced) = spec_advance(s, completion);
        if advanced is Err {
            (a, Err(advanced->Err_0))
        } else {
            let observed_delay = (completion - c.admitted_tick) as u64;
            let predicted = c.deterministic_delay_ticks + c.drift_penalty_ticks;
            if predicted > u64::MAX {
                (a, Err(AdmissionFault::ArithmeticOverflow))
            } else {
                let residual = observed_delay.saturating_sub(predicted as u64);
                let pushed = spec_push(a.calibrator, residual, n);
                let b = ControllerState { calibrator: pushed, ..a };
                match spec_guard(pushed) {
                    Err(_) => (b, Err(AdmissionFault::CorruptObservation)),
                    Ok(guard) => {
                        let drained = b.virtual_backlog_q16.saturating_sub(Q16_ONE);
                        let backlog = if observed_delay > c.delay_bound_ticks {
                            let excess = observed_delay - c.delay_bound_ticks;
                            let pressure = if excess * Q16_ONE > u64::MAX {
                                u64::MAX
                            } else {
                                ((excess * Q16_ONE) / (b.curve.window_ticks as int)) as u64
                            };
                            drained.saturating_add(pressure)
                        } else {
                            drained
                        };
                        (
                            ControllerState {
                                virtual_backlog_q16: backlog,
                                observed: b.observed.saturating_add(1),
                                ..b
                            },
                            Ok(guard),
                        )
                    },
                }
            }
        }
    }
}

/// The shape every controller keeps.
pub open spec fn controller_wf(s: ControllerState, n: usize) -> bool {
    &&& curve_valid(s.curve)
    &&& s.secret != 0
    &&& s.curve_root == spec_service_curve_root(s.secret, s.curve)
    &&& s.curve_root != 0
    &&& s.admitted_in_window <= s.curve.maximum_admissions_per_window
    &&& calibrator_wf(s.calibrator, n)
}

/// Fixed-capacity service controller. `N` is the number of completed-job
/// residuals retained by the conformal calibrator; the virtual backlog is a
/// Lyapunov queue that penalizes sustained under-service.
#[derive(Clone, Debug)]
pub struct ServiceController<const N: usize> {
    curve: ServiceCurve,
    secret: u64,
    window_start: u64,
    last_tick: u64,
    admitted_in_window: u16,
    reservation_sequence: u64,
    accepted: u64,
    rejected: u64,
    observed: u64,
    virtual_backlog_q16: u64,
    curve_root: u64,
    calibrator: ResidualCalibrator<N>,
}

impl<const N: usize> View for ServiceController<N> {
    type V = ControllerState;

    closed spec fn view(&self) -> ControllerState {
        ControllerState {
            curve: self.curve,
            secret: self.secret,
            window_start: self.window_start,
            last_tick: self.last_tick,
            admitted_in_window: self.admitted_in_window,
            reservation_sequence: self.reservation_sequence,
            accepted: self.accepted,
            rejected: self.rejected,
            observed: self.observed,
            virtual_backlog_q16: self.virtual_backlog_q16,
            curve_root: self.curve_root,
            calibrator: self.calibrator@,
        }
    }
}

impl<const N: usize> ServiceController<N> {
    pub closed spec fn wf(&self) -> bool {
        &&& controller_wf(self@, N)
        &&& self.calibrator.wf()
    }

    /// Builds a controller for a valid curve at `now_tick`; its calibrator
    /// caps guards at one window per backlog slot.
    pub fn new(curve: ServiceCurve, now_tick: u64, secret: u64) -> (r: Result<
        ServiceController<N>,
        AdmissionFault,
    >)
        ensures
            !curve_valid(curve) || secret == 0 || N == 0 ==> r == Err::<
                ServiceController<N>,
                AdmissionFault,
            >(AdmissionFault::InvalidCurve),
            curve_valid(curve) && secret != 0 && N != 0 && spec_service_curve_root(secret, curve)
                == 0 ==> r == Err::<ServiceController<N>, AdmissionFault>(
                AdmissionFault::InvalidCurve,
            ),
            curve_valid(curve) && secret != 0 && N != 0 && spec_service_curve_root(secret, curve)
                != 0 && curve.window_ticks * curve.maximum_backlog > u64::MAX ==> r == Err::<
                ServiceController<N>,
                AdmissionFault,
            >(AdmissionFault::ArithmeticOverflow),
            curve_valid(curve) && secret != 0 && N != 0 && spec_service_curve_root(secret, curve)
                != 0 && curve.window_ticks * curve.maximum_backlog <= u64::MAX && spec_mix(
                secret,
                CALIBRATOR_DOMAIN,
            ) == 0 ==> r == Err::<ServiceController<N>, AdmissionFault>(
                AdmissionFault::InvalidCurve,
            ),
            r is Ok ==> r->Ok_0.wf() && r->Ok_0@ == (ControllerState {
                curve,
                secret,
                window_start: now_tick,
                last_tick: now_tick,
                admitted_in_window: 0,
                reservation_sequence: 0,
                accepted: 0,
                rejected: 0,
                observed: 0,
                virtual_backlog_q16: 0,
                curve_root: spec_service_curve_root(secret, curve),
                calibrator: fresh_calibrator(
                    N,
                    DEFAULT_CONFORMAL_NUMERATOR,
                    DEFAULT_CONFORMAL_DENOMINATOR,
                    1,
                    (curve.window_ticks * curve.maximum_backlog) as u64,
                    spec_mix(secret, CALIBRATOR_DOMAIN),
                ),
            }),
            r is Ok <==> curve_valid(curve) && secret != 0 && N != 0 && spec_service_curve_root(
                secret,
                curve,
            ) != 0 && curve.window_ticks * curve.maximum_backlog <= u64::MAX && spec_mix(
                secret,
                CALIBRATOR_DOMAIN,
            ) != 0,
    {
        if !curve.valid() || secret == 0 || N == 0 {
            return Err(AdmissionFault::InvalidCurve);
        }
        let curve_root = service_curve_root(secret, curve);
        if curve_root == 0 {
            return Err(AdmissionFault::InvalidCurve);
        }
        let maximum_guard = match curve.window_ticks.checked_mul(curve.maximum_backlog as u64) {
            Some(v) => v,
            None => {
                return Err(AdmissionFault::ArithmeticOverflow);
            },
        };
        proof {
            assert(maximum_guard >= 1) by (nonlinear_arith)
                requires
                    maximum_guard == curve.window_ticks * curve.maximum_backlog,
                    curve.window_ticks >= 1,
                    curve.maximum_backlog >= 1,
            ;
        }
        let calibrator = match ResidualCalibrator::<N>::kernel_default(
            1,
            if maximum_guard >= 1 {
                maximum_guard
            } else {
                1
            },
            mix(secret, CALIBRATOR_DOMAIN),
        ) {
            Ok(c) => c,
            Err(_) => {
                return Err(AdmissionFault::InvalidCurve);
            },
        };
        Ok(
            ServiceController {
                curve,
                secret,
                window_start: now_tick,
                last_tick: now_tick,
                admitted_in_window: 0,
                reservation_sequence: 0,
                accepted: 0,
                rejected: 0,
                observed: 0,
                virtual_backlog_q16: 0,
                curve_root,
                calibrator,
            },
        )
    }

    pub fn curve(&self) -> (r: ServiceCurve)
        ensures
            r == self@.curve,
    {
        self.curve
    }

    pub fn curve_root(&self) -> (r: u64)
        ensures
            r == self@.curve_root,
    {
        self.curve_root
    }

    pub fn accepted(&self) -> (r: u64)
        ensures
            r == self@.accepted,
    {
        self.accepted
    }

    pub fn rejected(&self) -> (r: u64)
        ensures
            r == self@.rejected,
    {
        self.rejected
    }

    pub fn observed(&self) -> (r: u64)
        ensures
            r == self@.observed,
    {
        self.observed
    }

    pub fn virtual_backlog_q16(&self) -> (r: u64)
        ensures
            r == self@.virtual_backlog_q16,
    {
        self.virtual_backlog_q16
    }

    /// The current conformal guard, or one window when it overflows.
    pub fn uncertainty_guard_ticks(&self) -> (r: u64)
        requires
            self.wf(),
        ensures
            spec_guard(self@.calibrator) is Ok ==> r == spec_guard(self@.calibrator)->Ok_0,
            spec_guard(self@.calibrator) is Err ==> r == self@.curve.window_ticks,
    {
        match self.calibrator.guard() {
            Ok(v) => v,
            Err(_) => self.curve.window_ticks,
        }
    }

    /// Admits one job when its risk-adjusted delay bound fits the deadline.
    pub fn admit_job(&mut self, now_tick: u64, deadline_tick: u64, backlog_before: usize) -> (r:
        Result<AdmissionCertificate, AdmissionFault>)
        requires
            old(self).wf(),
        ensures
            final(self).wf(),
            (final(self)@, r) == spec_admit(old(self)@, now_tick, deadline_tick, backlog_before as int),
    {
        match self.advance(now_tick) {
            Err(e) => {
                return Err(e);
            },
            Ok(()) => {},
        }
        if backlog_before >= self.curve.maximum_backlog as usize {
            self.reject();
            return Err(AdmissionFault::BacklogSaturated);
        }
        if self.admitted_in_window >= self.curve.maximum_admissions_per_window {
            self.reject();
            return Err(AdmissionFault::ArrivalEnvelopeExceeded);
        }
        let deterministic = match self.curve.deterministic_delay(backlog_before) {
            Some(d) => d,
            None => {
                return Err(AdmissionFault::BacklogSaturated);
            },
        };
        let uncertainty = match self.calibrator.guard() {
            Ok(u) => u,
            Err(_) => {
                return Err(AdmissionFault::ArithmeticOverflow);
            },
        };
        let drift_penalty = self.drift_penalty_ticks();
        let partial = match deterministic.checked_add(uncertainty) {
            Some(v) => v,
            None => {
                return Err(AdmissionFault::ArithmeticOverflow);
            },
        };
        let delay = match partial.checked_add(drift_penalty) {
            Some(v) => v,
            None => {
                return Err(AdmissionFault::ArithmeticOverflow);
            },
        };
        let required_deadline = match now_tick.checked_add(delay) {
            Some(v) => v,
            None => {
                return Err(AdmissionFault::ArithmeticOverflow);
            },
        };
        if deadline_tick < required_deadline {
            self.reject();
            return Err(AdmissionFault::DeadlineUnsafe);
        }
        let admitted_before = self.admitted_in_window;
        self.admitted_in_window = admitted_before + 1;
        self.reservation_sequence = if self.reservation_sequence == u64::MAX {
            1
        } else {
            self.reservation_sequence + 1
        };
        self.accepted = self.accepted.saturating_add(1);
        self.virtual_backlog_q16 = self.virtual_backlog_q16.saturating_add(Q16_ONE);
        let mut certificate = AdmissionCertificate {
            reservation_sequence: self.reservation_sequence,
            admitted_tick: now_tick,
            window_start: self.window_start,
            backlog_before: backlog_before as u16,
            admitted_before,
            deterministic_delay_ticks: deterministic,
            uncertainty_guard_ticks: uncertainty,
            drift_penalty_ticks: drift_penalty,
            delay_bound_ticks: delay,
            deadline_slack_ticks: deadline_tick - required_deadline,
            curve_root: self.curve_root,
            calibration_root: self.calibrator.root(),
            certificate_root: 0,
        };
        certificate.certificate_root = admission_certificate_root(self.secret, certificate);
        Ok(certificate)
    }

    /// Undoes the latest reservation, named by its certificate.
    pub fn rollback(&mut self, certificate: AdmissionCertificate) -> (r: Result<
        (),
        AdmissionFault,
    >)
        requires
            old(self).wf(),
        ensures
            final(self).wf(),
            (final(self)@, r) == spec_rollback(old(self)@, certificate),
    {
        if !self.verify_certificate(certificate) || certificate.window_start != self.window_start
            || certificate.reservation_sequence != self.reservation_sequence
            || self.admitted_in_window != certificate.admitted_before.saturating_add(1) {
            return Err(AdmissionFault::StaleReservation);
        }
        self.admitted_in_window = certificate.admitted_before;
        self.accepted = self.accepted.saturating_sub(1);
        self.virtual_backlog_q16 = self.virtual_backlog_q16.saturating_sub(Q16_ONE);
        Ok(())
    }

    /// Records the completion of an admitted job: its positive
    /// underprediction feeds the calibrator and one unit of virtual backlog
    /// drains, while a completion past the bound adds pressure.
    pub fn observe_completion(
        &mut self,
        certificate: AdmissionCertificate,
        completion_tick: u64,
    ) -> (r: Result<u64, AdmissionFault>)
        requires
            old(self).wf(),
        ensures
            final(self).wf(),
            (final(self)@, r) == spec_observe_completion(
                old(self)@,
                certificate,
                completion_tick,
                N,
            ),
    {
        if !self.verify_certificate(certificate) || completion_tick < certificate.admitted_tick {
            return Err(AdmissionFault::CorruptObservation);
        }
        match self.advance(completion_tick) {
            Err(e) => {
                return Err(e);
            },
            Ok(()) => {},
        }
        let observed_delay = completion_tick - certificate.admitted_tick;
        let predicted = match certificate.deterministic_delay_ticks.checked_add(
            certificate.drift_penalty_ticks,
        ) {
            Some(v) => v,
            None => {
                return Err(AdmissionFault::ArithmeticOverflow);
            },
        };
        let residual = observed_delay.saturating_sub(predicted);
        let guard = match self.calibrator.push(residual) {
            Ok(g) => g,
            Err(_) => {
                return Err(AdmissionFault::CorruptObservation);
            },
        };
        self.virtual_backlog_q16 = self.virtual_backlog_q16.saturating_sub(Q16_ONE);
        if observed_delay > certificate.delay_bound_ticks {
            let excess = observed_delay - certificate.delay_bound_ticks;
            let pressure = match excess.checked_mul(Q16_ONE) {
                Some(v) => v / self.curve.window_ticks,
                None => u64::MAX,
            };
            self.virtual_backlog_q16 = self.virtual_backlog_q16.saturating_add(pressure);
        }
        self.observed = self.observed.saturating_add(1);
        Ok(guard)
    }

    pub fn verify_certificate(&self, certificate: AdmissionCertificate) -> (r: bool)
        ensures
            r == spec_verify_certificate(self@, certificate),
    {
        certificate.valid() && certificate.curve_root == self.curve_root
            && certificate.certificate_root == admission_certificate_root(self.secret, certificate)
    }

    fn advance(&mut self, now_tick: u64) -> (r: Result<(), AdmissionFault>)
        requires
            old(self).wf(),
        ensures
            final(self).wf(),
            (final(self)@, r) == spec_advance(old(self)@, now_tick),
    {
        if now_tick < self.last_tick || now_tick < self.window_start {
            self.reject();
            return Err(AdmissionFault::TimeRegression);
        }
        let elapsed = now_tick - self.window_start;
        let window = self.curve.window_ticks;
        if elapsed >= window {
            let windows = elapsed / window;
            proof {
                assert(windows * window <= elapsed) by (nonlinear_arith)
                    requires
                        windows == elapsed / window,
                        window > 0,
                ;
            }
            self.window_start = self.window_start + windows * window;
            self.admitted_in_window = 0;
            let served = match windows.checked_mul(self.curve.minimum_completions_per_window as u64) {
                Some(v) => v,
                None => {
                    return Err(AdmissionFault::ArithmeticOverflow);
                },
            };
            let service = match served.checked_mul(Q16_ONE) {
                Some(v) => v,
                None => {
                    return Err(AdmissionFault::ArithmeticOverflow);
                },
            };
            self.virtual_backlog_q16 = self.virtual_backlog_q16.saturating_sub(service);
        }
        self.last_tick = now_tick;
        Ok(())
    }

    fn drift_penalty_ticks(&self) -> (r: u64)
        requires
            self.wf(),
        ensures
            r == spec_drift_penalty(self@),
    {
        let backlog = self.virtual_backlog_q16;
        let jobs = backlog >> 16u64;
        assert(backlog >> 16u64 == backlog / 65536) by (bit_vector);
        if jobs == 0 {
            return 0;
        }
        let service = self.curve.minimum_completions_per_window as u64;
        let windows = jobs.saturating_add(service - 1) / service;
        saturating_mul(windows, self.curve.window_ticks)
    }

    fn reject(&mut self)
        requires
            old(self).wf(),
        ensures
            final(self).wf(),
            final(self)@ == spec_reject(old(self)@),
    {
        self.rejected = self.rejected.saturating_add(1);
    }
}

/// Deadline safety: an admitted job's delay bound is the sum of its
/// deterministic, uncertainty and drift terms, and it fits inside the
/// caller's deadline with the recorded slack.
pub proof fn lemma_admission_meets_deadline(
    s: ControllerState,
    now: u64,
    deadline: u64,
    backlog_before: int,
)
    requires
        spec_admit(s, now, deadline, backlog_before).1 is Ok,
    ensures
        ({
            let c = spec_admit(s, now, deadline, backlog_before).1->Ok_0;
            &&& c.delay_bound_ticks == c.deterministic_delay_ticks + c.uncertainty_guard_ticks
                + c.drift_penalty_ticks
            &&& now + c.delay_bound_ticks <= deadline
            &&& c.deadline_slack_ticks == deadline - now - c.delay_bound_ticks
            &&& c.admitted_tick == now
            &&& backlog_before < s.curve.maximum_backlog
        }),
{
}

/// Every admission respects the arrival envelope: the admissions counted in
/// the current window never exceed the curve's bound, and a successful
/// admission counts exactly one more.
pub proof fn lemma_admission_envelope(
    s: ControllerState,
    n: usize,
    now: u64,
    deadline: u64,
    backlog_before: int,
)
    requires
        controller_wf(s, n),
        0 <= backlog_before,
        spec_admit(s, now, deadline, backlog_before).1 is Ok,
    ensures
        ({
            let (b, r) = spec_admit(s, now, deadline, backlog_before);
            &&& b.admitted_in_window <= b.curve.maximum_admissions_per_window
            &&& b.admitted_in_window == r->Ok_0.admitted_before + 1
            &&& b.accepted == spec_advance(s, now).0.accepted.saturating_add(1)
        }),
{
}

/// A fresh certificate verifies against the controller that issued it,
/// provided neither the calibrator's root nor the certificate's own root is
/// the zero word.
pub proof fn lemma_admitted_certificate_verifies(
    s: ControllerState,
    n: usize,
    now: u64,
    deadline: u64,
    backlog_before: int,
)
    requires
        controller_wf(s, n),
        0 <= backlog_before,
        spec_admit(s, now, deadline, backlog_before).1 is Ok,
        spec_advance(s, now).0.calibrator.root != 0,
        spec_admit(s, now, deadline, backlog_before).1->Ok_0.certificate_root != 0,
    ensures
        spec_verify_certificate(
            spec_admit(s, now, deadline, backlog_before).0,
            spec_admit(s, now, deadline, backlog_before).1->Ok_0,
        ),
{
    let (b, r) = spec_admit(s, now, deadline, backlog_before);
    let a = spec_advance(s, now).0;
    let c = r->Ok_0;
    let windows = windows_for(backlog_before + 1, a.curve.minimum_completions_per_window as int);
    assert(windows >= 1) by (nonlinear_arith)
        requires
            windows == windows_for(
                backlog_before + 1,
                a.curve.minimum_completions_per_window as int,
            ),
            backlog_before >= 0,
            a.curve.minimum_completions_per_window >= 1,
    ;
    assert(windows * a.curve.window_ticks >= 1) by (nonlinear_arith)
        requires
            windows >= 1,
            a.curve.window_ticks >= 1,
    ;
    assert(c.delay_bound_ticks != 0);
    assert(c.reservation_sequence != 0);
    assert(c.curve_root != 0);
    assert(c.calibration_root != 0);
    assert(certificate_valid(c));
    assert(c.curve_root == b.curve_root);
    let unsealed = AdmissionCertificate { certificate_root: 0, ..c };
    assert(spec_certificate_root(b.secret, c) == spec_certificate_root(b.secret, unsealed));
}

/// Rolling back the latest admission restores the admission count, the
/// accepted count and the virtual backlog of the controller it was admitted
/// on (after the clock moved); only the reservation sequence stays advanced.
/// This holds unless a counter sat at its saturation bound or a root is the
/// zero word.
pub proof fn lemma_rollback_undoes_admission(
    s: ControllerState,
    n: usize,
    now: u64,
    deadline: u64,
    backlog_before: int,
)
    requires
        controller_wf(s, n),
        0 <= backlog_before,
        spec_admit(s, now, deadline, backlog_before).1 is Ok,
        spec_advance(s, now).0.calibrator.root != 0,
        spec_admit(s, now, deadline, backlog_before).1->Ok_0.certificate_root != 0,
        spec_advance(s, now).0.accepted < u64::MAX,
        spec_advance(s, now).0.virtual_backlog_q16 <= u64::MAX - Q16_ONE,
    ensures
        ({
            let a = spec_advance(s, now).0;
            let (b, c) = spec_admit(s, now, deadline, backlog_before);
            spec_rollback(b, c->Ok_0) == (
                ControllerState {
                    reservation_sequence: next_reservation(a.reservation_sequence),
                    ..a
                },
                Ok::<(), AdmissionFault>(()),
            )
        }),
{
    lemma_admitted_certificate_verifies(s, n, now, deadline, backlog_before);
}

/// The conformal guard never exceeds the calibrator's cap.
pub proof fn lemma_guard_is_capped(c: CalibratorState)
    requires
        spec_guard(c) is Ok,
    ensures
        spec_guard(c)->Ok_0 <= c.maximum_guard,
{
}

} // verus!
