//! Thermal-pressure awareness without a syscall.
//!
//! The kernel keeps a per-process thermal page with the current temperature
//! zone, a throttle hint, a wrapping epoch and the CPU budget of the epoch.
//! Readers derive load-shedding decisions from it; a policy reports each
//! zone change once per kernel epoch to a registered handler.

use vstd::prelude::*;

use crate::process::tachyon::DEFAULT_EVENT_HORIZON_TICKS;

verus! {

/// The kernel-written thermal page.
pub struct ThermalPage {
    pub temperature_zone: u8,
    pub throttle_hint: u8,
    pub kernel_epoch: u8,
    pub tsc_frequency_mhz: u32,
    pub cpu_budget_ticks: u64,
    pub cpu_used_ticks: u64,
    pub thermal_ticks: u64,
}

#[derive(Clone, Copy, Debug, PartialEq, Eq, PartialOrd, Ord, Structural)]
pub enum ThermalZone {
    Cold,
    Warm,
    Hot,
    Critical,
}

/// The zone encoded by a raw byte; unknown encodings read as cold.
pub open spec fn spec_zone(n: u8) -> ThermalZone {
    match n {
        1 => ThermalZone::Warm,
        2 => ThermalZone::Hot,
        3 => ThermalZone::Critical,
        _ => ThermalZone::Cold,
    }
}

/// The zone's position in the order cold < warm < hot < critical.
pub open spec fn zone_level(z: ThermalZone) -> nat {
    match z {
        ThermalZone::Cold => 0,
        ThermalZone::Warm => 1,
        ThermalZone::Hot => 2,
        ThermalZone::Critical => 3,
    }
}

/// Decoding follows the wire table and its order: raw 0 to 3 are cold,
/// warm, hot and critical, each one level hotter than the one before, and
/// any other byte reads as cold. Only hot and critical zones throttle.
pub proof fn lemma_zone_table(n: u8, a: ThermalZone, b: ThermalZone)
    ensures
        zone_level(spec_zone(n)) == if n <= 3 {
            n as nat
        } else {
            0
        },
        zone_level(a) == zone_level(b) ==> a == b,
        zone_level(ThermalZone::Cold) == 0 && zone_level(ThermalZone::Warm) == 1 && zone_level(
            ThermalZone::Hot,
        ) == 2 && zone_level(ThermalZone::Critical) == 3,
{
}

impl ThermalZone {
    pub fn from_raw(n: u8) -> (r: ThermalZone)
        ensures
            r == spec_zone(n),
    {
        match n {
            1 => ThermalZone::Warm,
            2 => ThermalZone::Hot,
            3 => ThermalZone::Critical,
            _ => ThermalZone::Cold,
        }
    }

    /// Hot and critical zones call for throttling.
    pub fn is_throttled(self) -> (r: bool)
        ensures
            r == (zone_level(self) >= 2),
    {
        match self {
            ThermalZone::Hot | ThermalZone::Critical => true,
            _ => false,
        }
    }
}

#[derive(Clone, Copy, Debug, PartialEq, Eq, Structural)]
pub enum ThrottleHint {
    Full,
    Half,
    Quarter,
    Minimal,
}

/// The hint encoded by a raw byte; unknown encodings read as full speed.
pub open spec fn spec_hint(n: u8) -> ThrottleHint {
    match n {
        1 => ThrottleHint::Half,
        2 => ThrottleHint::Quarter,
        3 => ThrottleHint::Minimal,
        _ => ThrottleHint::Full,
    }
}

/// The fraction of work to perform, in thousandths.
pub open spec fn work_fraction(h: ThrottleHint) -> u32 {
    match h {
        ThrottleHint::Full => 1000,
        ThrottleHint::Half => 500,
        ThrottleHint::Quarter => 250,
        ThrottleHint::Minimal => 100,
    }
}

/// The yield pressure a hint asks for.
pub open spec fn pressure_of(h: ThrottleHint) -> u64 {
    match h {
        ThrottleHint::Full => 0,
        ThrottleHint::Half => 1_000,
        ThrottleHint::Quarter => 5_000,
        ThrottleHint::Minimal => 20_000,
    }
}

/// Severity of a hint: full speed is the mildest, minimal the harshest.
pub open spec fn hint_severity(h: ThrottleHint) -> nat {
    match h {
        ThrottleHint::Full => 0,
        ThrottleHint::Half => 1,
        ThrottleHint::Quarter => 2,
        ThrottleHint::Minimal => 3,
    }
}

/// Harsher throttling asks for strictly more yield pressure and strictly
/// less work: full speed asks for none and does all of it (0 and 1000
/// thousandths), half speed 1000 and 500, a quarter 5000 and 250, minimal
/// 20000 and 100. Raw hints 1, 2 and 3 are half, quarter and minimal;
/// every other byte is full speed.
pub proof fn lemma_throttle_is_monotone(a: ThrottleHint, b: ThrottleHint, n: u8)
    ensures
        hint_severity(a) < hint_severity(b) ==> pressure_of(a) < pressure_of(b) && work_fraction(b)
            < work_fraction(a),
        pressure_of(a) == 0 <==> a == ThrottleHint::Full,
        pressure_of(ThrottleHint::Full) == 0 && work_fraction(ThrottleHint::Full) == 1000,
        pressure_of(ThrottleHint::Half) == 1_000 && work_fraction(ThrottleHint::Half) == 500,
        pressure_of(ThrottleHint::Quarter) == 5_000 && work_fraction(ThrottleHint::Quarter) == 250,
        pressure_of(ThrottleHint::Minimal) == 20_000 && work_fraction(ThrottleHint::Minimal)
            == 100,
        hint_severity(spec_hint(n)) == if 1 <= n <= 3 {
            n as nat
        } else {
            0
        },
{
}


impl ThrottleHint {
    pub fn from_raw(n: u8) -> (r: ThrottleHint)
        ensures
            r == spec_hint(n),
    {
        match n {
            1 => ThrottleHint::Half,
            2 => ThrottleHint::Quarter,
            3 => ThrottleHint::Minimal,
            _ => ThrottleHint::Full,
        }
    }

    /// Fraction of work to perform: 1.0, 0.5, 0.25, 0.1, in thousandths.
    pub fn work_fraction_millipct(self) -> (r: u32)
        ensures
            r == work_fraction(self),
    {
        match self {
            ThrottleHint::Full => 1000,
            ThrottleHint::Half => 500,
            ThrottleHint::Quarter => 250,
            ThrottleHint::Minimal => 100,
        }
    }

    /// Yield pressure to emit while this hint is active.
    pub fn yield_pressure(self) -> (r: u64)
        ensures
            r == pressure_of(self),
    {
        match self {
            ThrottleHint::Full => 0,
            ThrottleHint::Half => 1_000,
            ThrottleHint::Quarter => 5_000,
            ThrottleHint::Minimal => 20_000,
        }
    }
}

impl ThermalPage {
    pub fn zeroed() -> (r: ThermalPage)
        ensures
            r.temperature_zone == 0 && r.throttle_hint == 0 && r.kernel_epoch == 0,
            r.tsc_frequency_mhz == 0 && r.cpu_budget_ticks == 0 && r.cpu_used_ticks == 0,
            r.thermal_ticks == 0,
    {
        ThermalPage {
            temperature_zone: 0,
            throttle_hint: 0,
            kernel_epoch: 0,
            tsc_frequency_mhz: 0,
            cpu_budget_ticks: 0,
            cpu_used_ticks: 0,
            thermal_ticks: 0,
        }
    }

    pub fn zone(&self) -> (r: ThermalZone)
        ensures
            r == spec_zone(self.temperature_zone),
    {
        ThermalZone::from_raw(self.temperature_zone)
    }

    pub fn hint(&self) -> (r: ThrottleHint)
        ensures
            r == spec_hint(self.throttle_hint),
    {
        ThrottleHint::from_raw(self.throttle_hint)
    }

    /// Ticks left in this epoch's budget; zero once it is spent.
    pub fn budget_remaining(&self) -> (r: u64)
        ensures
            r == (if self.cpu_used_ticks <= self.cpu_budget_ticks {
                (self.cpu_budget_ticks - self.cpu_used_ticks) as u64
            } else {
                0
            }),
    {
        if self.cpu_used_ticks <= self.cpu_budget_ticks {
            self.cpu_budget_ticks - self.cpu_used_ticks
        } else {
            0
        }
    }

    pub fn epoch(&self) -> (r: u8)
        ensures
            r == self.kernel_epoch,
    {
        self.kernel_epoch
    }

    pub fn tsc_mhz(&self) -> (r: u32)
        ensures
            r == self.tsc_frequency_mhz,
    {
        self.tsc_frequency_mhz
    }
}

/// True when the process is under thermal stress and should shed load.
pub fn is_thermally_stressed(page: &ThermalPage) -> (r: bool)
    ensures
        r == (zone_level(spec_zone(page.temperature_zone)) >= 2),
{
    page.zone().is_throttled()
}

/// The iteration batch for the current throttle hint: the hint's fraction
/// of `base`, rounded down. At Full it is `base`; at Minimal, `base / 10`.
pub fn throttled_batch_size(page: &ThermalPage, base: usize) -> (r: usize)
    requires
        base * work_fraction(spec_hint(page.throttle_hint)) <= usize::MAX,
    ensures
        r == base * work_fraction(spec_hint(page.throttle_hint)) / 1000,
        spec_hint(page.throttle_hint) == ThrottleHint::Full ==> r == base,
        spec_hint(page.throttle_hint) == ThrottleHint::Minimal ==> r == base / 10,
{
    let millipct = page.hint().work_fraction_millipct() as usize;
    base * millipct / 1000
}

/// A throttle scope over one hot loop: the hint is read once on entry.
pub struct ThermalGuard<'page> {
    page: &'page ThermalPage,
    hint: ThrottleHint,
    start: u64,
}

impl<'page> ThermalGuard<'page> {
    pub closed spec fn page(&self) -> ThermalPage {
        *self.page
    }

    pub closed spec fn hint(&self) -> ThrottleHint {
        self.hint
    }

    pub closed spec fn start(&self) -> u64 {
        self.start
    }

    /// Opens a scope at counter value `now`.
    pub fn enter(page: &'page ThermalPage, now: u64) -> (r: ThermalGuard<'page>)
        ensures
            r.page() == *page,
            r.hint() == spec_hint(page.throttle_hint),
            r.start() == now,
    {
        ThermalGuard { page, hint: page.hint(), start: now }
    }

    pub fn current_hint(&self) -> (r: ThrottleHint)
        ensures
            r == self.hint(),
    {
        self.hint
    }

    /// True when the epoch's budget is spent: the caller should yield now.
    pub fn budget_exhausted(&self) -> (r: bool)
        ensures
            r == (self.page().cpu_used_ticks >= self.page().cpu_budget_ticks),
    {
        self.page.budget_remaining() == 0
    }

    /// The pressure to yield with when the scope closes at counter value
    /// `now`: the larger of the elapsed ticks and the hint's pressure, when
    /// the hint asks for any or the scope overran the event horizon.
    pub fn exit_pressure(&self, now: u64) -> (r: Option<u64>)
        ensures
            ({
                let elapsed = if now >= self.start() {
                    (now - self.start()) as u64
                } else {
                    0
                };
                let pressure = pressure_of(self.hint());
                if pressure > 0 || elapsed > DEFAULT_EVENT_HORIZON_TICKS {
                    r == Some(if elapsed >= pressure {
                        elapsed
                    } else {
                        pressure
                    })
                } else {
                    r is None
                }
            }),
            self.hint() != ThrottleHint::Full ==> r is Some && r->Some_0 >= 1_000,
            r is Some ==> r->Some_0 >= pressure_of(self.hint()),
    {
        let elapsed = if now >= self.start {
            now - self.start
        } else {
            0
        };
        let pressure = self.hint.yield_pressure();
        if pressure > 0 || elapsed > DEFAULT_EVENT_HORIZON_TICKS {
            Some(
                if elapsed >= pressure {
                    elapsed
                } else {
                    pressure
                },
            )
        } else {
            None
        }
    }
}

/// Zone-transition dispatch: remembers the last zone and kernel epoch and
/// reports each zone change to its handler.
pub struct ThermalPolicy<H> {
    last_zone: ThermalZone,
    last_epoch: u8,
    handler: H,
}

impl<H: Fn(ThermalZone, ThermalZone)> ThermalPolicy<H> {
    pub closed spec fn last_zone(&self) -> ThermalZone {
        self.last_zone
    }

    pub closed spec fn last_epoch(&self) -> u8 {
        self.last_epoch
    }

    pub closed spec fn handler(&self) -> H {
        self.handler
    }

    /// A policy that starts from the page's current zone and epoch.
    pub fn new(page: &ThermalPage, handler: H) -> (r: ThermalPolicy<H>)
        ensures
            r.last_zone() == spec_zone(page.temperature_zone),
            r.last_epoch() == page.kernel_epoch,
            r.handler() == handler,
    {
        ThermalPolicy { last_zone: page.zone(), last_epoch: page.epoch(), handler }
    }

    pub fn set_handler(&mut self, handler: H)
        ensures
            final(self).last_zone() == old(self).last_zone(),
            final(self).last_epoch() == old(self).last_epoch(),
            final(self).handler() == handler,
    {
        self.handler = handler;
    }

    /// Detects a zone change. Nothing happens while the kernel epoch is
    /// unchanged; on a new epoch the epoch is recorded, and when the zone
    /// differs from the last one the handler is called once with the old and
    /// the new zone.
    pub fn check_transition(&mut self, page: &ThermalPage)
        requires
            forall|a: ThermalZone, b: ThermalZone| call_requires(old(self).handler(), (a, b)),
        ensures
            final(self).handler() == old(self).handler(),
            page.kernel_epoch == old(self).last_epoch() ==> final(self).last_zone() == old(
                self,
            ).last_zone() && final(self).last_epoch() == old(self).last_epoch(),
            page.kernel_epoch != old(self).last_epoch() ==> final(self).last_epoch()
                == page.kernel_epoch && final(self).last_zone() == spec_zone(page.temperature_zone),
            page.kernel_epoch != old(self).last_epoch() && spec_zone(page.temperature_zone) != old(
                self,
            ).last_zone() ==> call_ensures(
                old(self).handler(),
                (old(self).last_zone(), spec_zone(page.temperature_zone)),
                (),
            ),
    {
        let epoch = page.epoch();
        if epoch == self.last_epoch {
            return;
        }
        self.last_epoch = epoch;
        let new_zone = page.zone();
        if new_zone != self.last_zone {
            let old_zone = self.last_zone;
            self.last_zone = new_zone;
            assert(self.handler == old(self).handler());
            assert(call_requires(old(self).handler(), (old_zone, new_zone)));
            (self.handler)(old_zone, new_zone);
        }
    }

    pub fn current_zone(&self) -> (r: ThermalZone)
        ensures
            r == self.last_zone(),
    {
        self.last_zone
    }
}

} // verus!
