use slope::signal::{CoronalMatrix, DischargeAction, DischargeClass, DischargeEvent, DISCHARGE_PAYLOAD_BYTES};
use std::sync::atomic::{AtomicU8, Ordering};

static LAST_CLASS: AtomicU8 = AtomicU8::new(255);

fn test_handler(event: &DischargeEvent) {
    LAST_CLASS.store(event.class, Ordering::Relaxed);
}

fn event(class: u8) -> DischargeEvent {
    DischargeEvent {
        class,
        pad: [0; 7],
        payload: [0; DISCHARGE_PAYLOAD_BYTES],
        sender_pid: 0,
    }
}

#[test]
fn matrix_dispatches_to_registered_handler() {
    let mut matrix = CoronalMatrix::new();
    matrix.set(DischargeClass::ThermalThrottle, test_handler);
    let event = DischargeEvent {
        class: DischargeClass::ThermalThrottle.to_raw(),
        pad: [0; 7],
        payload: [0; DISCHARGE_PAYLOAD_BYTES],
        sender_pid: 0,
    };
    matrix.dispatch(&event);
    assert_eq!(LAST_CLASS.load(Ordering::Relaxed), 4);
}

#[test]
fn unregistered_classes_get_the_default_treatment() {
    let mut matrix = CoronalMatrix::new();
    let hits = std::cell::Cell::new(0u32);
    matrix.set(DischargeClass::UserDefined(200), |_e: &DischargeEvent| hits.set(hits.get() + 1));
    assert_eq!(matrix.dispatch(&event(200)), DischargeAction::Handled);
    assert_eq!(hits.get(), 1);
    assert_eq!(matrix.dispatch(&event(1)), DischargeAction::Exit);
    assert_eq!(matrix.dispatch(&event(3)), DischargeAction::Ignored);
    matrix.clear(DischargeClass::UserDefined(200));
    assert_eq!(matrix.dispatch(&event(200)), DischargeAction::Ignored);
    assert_eq!(hits.get(), 1);
}

#[test]
fn classes_round_trip_through_their_raw_values() {
    for raw in 0..=255u8 {
        assert_eq!(DischargeClass::from_raw(raw).to_raw(), raw);
    }
    assert_eq!(DischargeClass::from_raw(4), DischargeClass::ThermalThrottle);
    assert_eq!(DischargeClass::from_raw(9), DischargeClass::UserDefined(9));
    // a user class numbered like a kernel class decodes as the kernel class
    assert_eq!(
        DischargeClass::from_raw(DischargeClass::UserDefined(3).to_raw()),
        DischargeClass::ResourcePressure
    );
}
