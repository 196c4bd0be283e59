use slope::tuning::{gpu_policy, state, TuningProfileLease, MAX_THERMAL_LIMIT_MC, TUNING_WIRE_VERSION};

fn applied() -> TuningProfileLease {
    TuningProfileLease {
        version: TUNING_WIRE_VERSION,
        state: state::APPLIED,
        reserved: 0,
        generation: 9,
        capability: 17,
        profile_hash: [0xA5; 32],
        cpu_governor: 1,
        gpu_policy: gpu_policy::BALANCED,
        network_policy: 1,
        flags: 0,
        thermal_limit_mc: 85_000,
    }
}

#[test]
fn authenticated_applied_profile_is_usable() {
    let profile = applied();
    assert!(profile.valid());
    assert!(profile.is_usable());
}

#[test]
fn invalid_or_rolled_back_profile_fails_closed() {
    let profile = applied();
    assert!(
        !TuningProfileLease {
            profile_hash: [0; 32],
            ..profile
        }
        .valid()
    );
    assert!(
        !TuningProfileLease {
            state: state::ROLLED_BACK,
            ..profile
        }
        .is_usable()
    );
    assert!(
        !TuningProfileLease {
            thermal_limit_mc: MAX_THERMAL_LIMIT_MC + 1,
            ..profile
        }
        .valid()
    );
    assert!(
        !TuningProfileLease {
            reserved: 1,
            ..profile
        }
        .valid()
    );
}

#[test]
fn stale_generation_cannot_be_used_as_a_current_observation() {
    let profile = applied();
    assert!(profile.valid_for_generation(9));
    assert!(profile.is_usable_for_generation(9));
    assert!(!profile.valid_for_generation(8));
    assert!(!profile.valid_for_generation(0));
    assert!(
        !TuningProfileLease {
            state: state::ROLLED_BACK,
            ..profile
        }
        .is_usable_for_generation(9)
    );
}

#[test]
fn field_ranges_are_enforced() {
    let profile = applied();
    let mut hash = [0u8; 32];
    hash[31] = 1;
    assert!(TuningProfileLease { profile_hash: hash, ..profile }.valid());
    assert!(!TuningProfileLease { state: state::UNKNOWN, ..profile }.valid());
    assert!(TuningProfileLease { state: state::REJECTED, ..profile }.valid());
    assert!(!TuningProfileLease { gpu_policy: 4, ..profile }.valid());
    assert!(TuningProfileLease { gpu_policy: gpu_policy::POWER_SAVE, ..profile }.valid());
    assert!(!TuningProfileLease { cpu_governor: 4, ..profile }.valid());
    assert!(!TuningProfileLease { thermal_limit_mc: 19_999, ..profile }.valid());
    assert!(!TuningProfileLease { version: 2, ..profile }.valid());
    assert!(!TuningProfileLease { capability: 0, ..profile }.valid());
}
