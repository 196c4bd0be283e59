use slope::env::{fnv1a_const, EnvSnapshot, PhaseKey, QuantumArgv, QuantumEnv, FNV_OFFSET, MAX_ARGV, MAX_ENV_VARS};

#[test]
fn fnv1a_const_matches_known_vectors() {
    // FNV-1a of empty string is the offset basis
    assert_eq!(fnv1a_const(b""), FNV_OFFSET);
    // the known 64-bit FNV-1a result for "a"
    assert_eq!(fnv1a_const(b"a"), 0xaf63_dc4c_8601_ec8c);
}

#[test]
fn phase_key_macro_compiles() {
    let home = PhaseKey::from_bytes(b"HOME");
    assert_ne!(home.0, 0);
    // Same key twice is identical
    let home2 = PhaseKey::from_bytes(b"HOME");
    assert_eq!(home, home2);
}

fn env(entries: &[&[u8]]) -> QuantumEnv {
    QuantumEnv::from_entries(entries.iter().map(|e| e.to_vec()).collect())
}

#[test]
fn env_lookup_by_name_and_by_hash() {
    let environment = env(&[b"PATH=/bin", b"HOME=/home/crest", b"EMPTY=", b"HOMEX=wrong"]);
    assert_eq!(environment.get(b"HOME"), Some(&b"/home/crest"[..]));
    assert_eq!(environment.get(b"PATH"), Some(&b"/bin"[..]));
    assert_eq!(environment.get(b"EMPTY"), None);
    assert_eq!(environment.get(b"HOM"), None);
    assert_eq!(
        environment.get_phase(PhaseKey::from_bytes(b"HOME")),
        Some(&b"/home/crest"[..])
    );
    assert_eq!(environment.get_phase(PhaseKey::from_bytes(b"EMPTY")), Some(&b""[..]));
    assert_eq!(environment.get_phase(PhaseKey::from_bytes(b"NONE")), None);
    // the hash scan stops at an entry without a separator
    let broken = env(&[b"NOSEP", b"HOME=/x"]);
    assert_eq!(broken.get_phase(PhaseKey::from_bytes(b"HOME")), None);
    assert_eq!(broken.get(b"HOME"), Some(&b"/x"[..]));
}

#[test]
fn snapshot_keeps_hashed_entries_in_order() {
    let environment = env(&[b"NOSEP", b"A=1", b"B=2", b"A=3"]);
    let snapshot = EnvSnapshot::collapse(&environment);
    assert_eq!(snapshot.get(PhaseKey::from_bytes(b"A")), Some(&b"1"[..]));
    assert_eq!(snapshot.get(PhaseKey::from_bytes(b"B")), Some(&b"2"[..]));
    assert_eq!(snapshot.get(PhaseKey::from_bytes(b"C")), None);
    assert_eq!(EnvSnapshot::empty().get(PhaseKey::from_bytes(b"A")), None);

    let many: Vec<Vec<u8>> = (0..MAX_ENV_VARS + 5)
        .map(|i| format!("K{}=v{}", i, i).into_bytes())
        .collect();
    let snapshot = EnvSnapshot::collapse(&QuantumEnv::from_entries(many));
    assert_eq!(snapshot.get(PhaseKey::from_bytes(b"K0")), Some(&b"v0"[..]));
    assert_eq!(
        snapshot.get(PhaseKey::from_bytes(format!("K{}", MAX_ENV_VARS - 1).as_bytes())),
        Some(format!("v{}", MAX_ENV_VARS - 1).as_bytes())
    );
    assert_eq!(
        snapshot.get(PhaseKey::from_bytes(format!("K{}", MAX_ENV_VARS).as_bytes())),
        None
    );
}

#[test]
fn argv_is_bounded_and_iterates_in_order() {
    let argv = QuantumArgv::from_args(vec![b"init".to_vec(), b"--quiet".to_vec()]);
    assert_eq!(argv.len(), 2);
    assert!(!argv.is_empty());
    assert_eq!(argv.get(0), Some(&b"init"[..]));
    assert_eq!(argv.get(2), None);
    let mut iter = argv.iter();
    assert_eq!(iter.next(), Some(&b"init"[..]));
    assert_eq!(iter.next(), Some(&b"--quiet"[..]));
    assert_eq!(iter.next(), None);
    let long = QuantumArgv::from_args((0..MAX_ARGV + 3).map(|i| vec![i as u8]).collect());
    assert_eq!(long.len(), MAX_ARGV);
    assert!(QuantumArgv::from_args(Vec::new()).is_empty());
}
