use slope::capability::{
    parse_handle, CapabilityEnvelope, CapabilityError, DmaRight, FabricRight, Right,
    SchedulerRight,
};
use slope::env::{EnvSnapshot, QuantumEnv};

fn snapshot(entries: &[&[u8]]) -> EnvSnapshot {
    EnvSnapshot::collapse(&QuantumEnv::from_entries(
        entries.iter().map(|e| e.to_vec()).collect(),
    ))
}

#[test]
fn handles_parse_in_decimal_and_hexadecimal() {
    assert_eq!(parse_handle(b"42"), Ok(42));
    assert_eq!(parse_handle(b"1_000"), Ok(1000));
    assert_eq!(parse_handle(b"0x2A"), Ok(42));
    assert_eq!(parse_handle(b"0Xff_ff"), Ok(0xffff));
    assert_eq!(parse_handle(b"0x"), Err(CapabilityError::Malformed));
    assert_eq!(parse_handle(b""), Err(CapabilityError::Malformed));
    assert_eq!(parse_handle(b"___"), Err(CapabilityError::Malformed));
    assert_eq!(parse_handle(b"12a"), Err(CapabilityError::Malformed));
    assert_eq!(parse_handle(b"0xg"), Err(CapabilityError::Malformed));
    assert_eq!(parse_handle(b"18446744073709551615"), Ok(u64::MAX));
    assert_eq!(
        parse_handle(b"18446744073709551616"),
        Err(CapabilityError::Overflow)
    );
    assert_eq!(
        parse_handle(b"0x1_0000_0000_0000_0000"),
        Err(CapabilityError::Overflow)
    );
    // an overflow met before a bad byte is what is reported
    assert_eq!(
        parse_handle(b"99999999999999999999z"),
        Err(CapabilityError::Overflow)
    );
}

#[test]
fn envelope_prefers_the_current_key_then_the_legacy_one() {
    let environment = snapshot(&[
        b"ARACH_CAP_FABRIC=0x10",
        b"SISYPHUS_CAP_FABRIC=99",
        b"SISYPHUS_CAP_DMA=7",
        b"ARACH_CAP_SCHEDULER=0",
    ]);
    let envelope = CapabilityEnvelope::new(&environment);
    assert_eq!(envelope.recv::<FabricRight>().unwrap().as_raw(), 16);
    assert_eq!(envelope.recv::<DmaRight>().unwrap().as_raw(), 7);
    assert_eq!(
        envelope.recv::<SchedulerRight>().err(),
        Some(CapabilityError::NullHandle)
    );
    let empty = EnvSnapshot::empty();
    assert_eq!(
        CapabilityEnvelope::new(&empty).recv::<FabricRight>().err(),
        Some(CapabilityError::Missing)
    );
    assert_ne!(FabricRight::env_key(), DmaRight::env_key());
    assert!(FabricRight::legacy_env_key().is_some());
}
