use slope::thermogenesis::{
    is_thermally_stressed, throttled_batch_size, ThermalGuard, ThermalPage, ThermalPolicy,
    ThermalZone, ThrottleHint,
};
use slope::process::tachyon::DEFAULT_EVENT_HORIZON_TICKS;
use std::sync::atomic::{AtomicU8, Ordering};

#[test]
fn thermal_zone_ordering() {
    assert!(ThermalZone::Critical > ThermalZone::Cold);
    assert!(ThermalZone::Hot.is_throttled());
    assert!(!ThermalZone::Warm.is_throttled());
}

#[test]
fn throttled_batch_size_scales_correctly() {
    let mut page = ThermalPage::zeroed();
    page.throttle_hint = 3;
    let batch = throttled_batch_size(&page, 1000);
    assert_eq!(batch, 100); // Minimal → 10%
}

static CALLS: AtomicU8 = AtomicU8::new(0);

fn handler(_old: ThermalZone, _new: ThermalZone) {
    CALLS.fetch_add(1, Ordering::Relaxed);
}

#[test]
fn policy_fires_handler_on_zone_change() {
    let mut page = ThermalPage::zeroed();
    let mut policy = ThermalPolicy::new(&page, handler);
    policy.set_handler(handler);

    // Simulate kernel writing a new epoch + new zone
    page.temperature_zone = 2; // Hot
    page.kernel_epoch = 1;

    policy.check_transition(&page);
    assert_eq!(CALLS.load(Ordering::Relaxed), 1);
    assert_eq!(policy.current_zone(), ThermalZone::Hot);

    // Same epoch — no second fire
    policy.check_transition(&page);
    assert_eq!(CALLS.load(Ordering::Relaxed), 1);
}

#[test]
fn new_epoch_without_zone_change_is_silent() {
    let calls = std::cell::Cell::new(0u32);
    let mut page = ThermalPage::zeroed();
    page.temperature_zone = 1;
    let mut policy = ThermalPolicy::new(&page, |_old: ThermalZone, _new: ThermalZone| {
        calls.set(calls.get() + 1)
    });
    page.kernel_epoch = 5;
    policy.check_transition(&page);
    assert_eq!(calls.get(), 0);
    assert_eq!(policy.current_zone(), ThermalZone::Warm);
    page.kernel_epoch = 6;
    page.temperature_zone = 3;
    policy.check_transition(&page);
    assert_eq!(calls.get(), 1);
    assert_eq!(policy.current_zone(), ThermalZone::Critical);
}

#[test]
fn page_decoding_and_budget() {
    let mut page = ThermalPage::zeroed();
    assert_eq!(page.zone(), ThermalZone::Cold);
    assert_eq!(page.hint(), ThrottleHint::Full);
    page.temperature_zone = 9;
    page.throttle_hint = 9;
    assert_eq!(page.zone(), ThermalZone::Cold);
    assert_eq!(page.hint(), ThrottleHint::Full);
    page.temperature_zone = 3;
    assert!(is_thermally_stressed(&page));
    page.cpu_budget_ticks = 100;
    page.cpu_used_ticks = 40;
    assert_eq!(page.budget_remaining(), 60);
    page.cpu_used_ticks = 140;
    assert_eq!(page.budget_remaining(), 0);
    page.kernel_epoch = 4;
    page.tsc_frequency_mhz = 3000;
    assert_eq!(page.epoch(), 4);
    assert_eq!(page.tsc_mhz(), 3000);
}

#[test]
fn hints_scale_work_and_pressure() {
    assert_eq!(ThrottleHint::Half.work_fraction_millipct(), 500);
    assert_eq!(ThrottleHint::Quarter.work_fraction_millipct(), 250);
    assert_eq!(ThrottleHint::Full.yield_pressure(), 0);
    assert_eq!(ThrottleHint::Minimal.yield_pressure(), 20_000);
    let mut page = ThermalPage::zeroed();
    page.throttle_hint = 3;
    assert_eq!(throttled_batch_size(&page, 5), 0);
    assert_eq!(throttled_batch_size(&page, 50), 5);
    page.throttle_hint = 1;
    assert_eq!(throttled_batch_size(&page, 7), 3);
    page.throttle_hint = 0;
    assert_eq!(throttled_batch_size(&page, 0), 0);
    assert_eq!(throttled_batch_size(&page, 64), 64);
}

#[test]
fn guard_reports_pressure_and_overruns() {
    let mut page = ThermalPage::zeroed();
    page.throttle_hint = 2;
    page.cpu_budget_ticks = 10;
    page.cpu_used_ticks = 10;
    let guard = ThermalGuard::enter(&page, 1_000);
    assert_eq!(guard.current_hint(), ThrottleHint::Quarter);
    assert!(guard.budget_exhausted());
    assert_eq!(guard.exit_pressure(1_100), Some(5_000));
    assert_eq!(guard.exit_pressure(100_000), Some(99_000));

    let calm = ThermalPage::zeroed();
    let guard = ThermalGuard::enter(&calm, 10);
    assert_eq!(guard.exit_pressure(20), None);
    assert_eq!(
        guard.exit_pressure(10 + DEFAULT_EVENT_HORIZON_TICKS + 1),
        Some(DEFAULT_EVENT_HORIZON_TICKS + 1)
    );
    assert_eq!(guard.exit_pressure(5), None);
}
