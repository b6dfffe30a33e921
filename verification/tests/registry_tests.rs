use farm_credit::registry::{Error, VerifierRegistry};

const SUPER_ADMIN: u64 = 1;
const VERIFIER: u64 = 2;
const FARMER: u64 = 3;

fn setup() -> VerifierRegistry {
    let mut reg = VerifierRegistry::new();
    reg.initialize(SUPER_ADMIN).unwrap();
    reg
}

#[test]
fn test_registry_initialize_twice_fails() {
    let mut reg = setup();
    assert_eq!(reg.initialize(9), Err(Error::AlreadyInitialized));
    assert_eq!(reg.get_super_admin(), SUPER_ADMIN);
}

#[test]
fn test_register_and_profile() {
    let mut reg = setup();
    reg.register_verifier(VERIFIER, "Agro Labs".to_string(), "Kenya".to_string(), 42).unwrap();
    assert!(reg.is_verifier_registered(VERIFIER));
    assert!(reg.is_verifier_active(VERIFIER));
    assert_eq!(
        reg.get_verifier_profile(VERIFIER),
        Some(("Agro Labs".to_string(), "Kenya".to_string(), 42, true))
    );
    assert_eq!(
        reg.register_verifier(VERIFIER, "Other".to_string(), "X".to_string(), 43),
        Err(Error::VerifierAlreadyRegistered)
    );
}

#[test]
fn test_deactivate_keeps_profile() {
    let mut reg = setup();
    reg.register_verifier(VERIFIER, "Agro Labs".to_string(), "Kenya".to_string(), 42).unwrap();
    reg.deactivate_verifier(VERIFIER).unwrap();
    assert!(!reg.is_verifier_registered(VERIFIER));
    assert!(!reg.is_verifier_active(VERIFIER));
    assert_eq!(
        reg.get_verifier_profile(VERIFIER),
        Some(("Agro Labs".to_string(), "Kenya".to_string(), 42, false))
    );
    assert_eq!(reg.deactivate_verifier(VERIFIER), Err(Error::VerifierNotRegistered));
}

#[test]
fn test_reactivation_by_registering_again() {
    let mut reg = setup();
    reg.register_verifier(VERIFIER, "A".to_string(), "B".to_string(), 1).unwrap();
    reg.deactivate_verifier(VERIFIER).unwrap();
    reg.register_verifier(VERIFIER, "C".to_string(), "D".to_string(), 9).unwrap();
    assert_eq!(reg.get_verifier_profile(VERIFIER), Some(("C".to_string(), "D".to_string(), 9, true)));
}

#[test]
fn test_submit_report() {
    let mut reg = setup();
    assert_eq!(
        reg.submit_report_hash_with_verifier(VERIFIER, FARMER, "h1".to_string(), 5),
        Err(Error::VerifierNotRegistered)
    );
    assert_eq!(reg.get_farmer_report(FARMER), None);
    reg.register_verifier(VERIFIER, "A".to_string(), "B".to_string(), 1).unwrap();
    reg.submit_report_hash_with_verifier(VERIFIER, FARMER, "h1".to_string(), 5).unwrap();
    assert_eq!(reg.get_farmer_report(FARMER), Some((VERIFIER, "h1".to_string(), 5)));
    reg.submit_report_hash_with_verifier(VERIFIER, FARMER, "h2".to_string(), 6).unwrap();
    assert_eq!(reg.get_farmer_report(FARMER), Some((VERIFIER, "h2".to_string(), 6)));
    reg.deactivate_verifier(VERIFIER).unwrap();
    assert_eq!(
        reg.submit_report_hash_with_verifier(VERIFIER, FARMER, "h3".to_string(), 7),
        Err(Error::VerifierNotRegistered)
    );
    assert_eq!(reg.get_farmer_report(FARMER), Some((VERIFIER, "h2".to_string(), 6)));
}

#[test]
fn test_submit_report_hash_by_verifier() {
    let mut reg = setup();
    assert_eq!(
        reg.submit_report_hash(VERIFIER, FARMER, "h".to_string(), 3),
        Err(Error::VerifierNotRegistered)
    );
    assert_eq!(reg.get_farmer_report(FARMER), None);
    reg.register_verifier(VERIFIER, "A".to_string(), "B".to_string(), 1).unwrap();
    assert_eq!(reg.submit_report_hash(VERIFIER, FARMER, "h".to_string(), 3), Ok(()));
    assert_eq!(reg.get_farmer_report(FARMER), Some((VERIFIER, "h".to_string(), 3)));
    reg.deactivate_verifier(VERIFIER).unwrap();
    assert_eq!(
        reg.submit_report_hash(VERIFIER, FARMER, "h2".to_string(), 4),
        Err(Error::VerifierNotRegistered)
    );
    assert_eq!(reg.get_farmer_report(FARMER), Some((VERIFIER, "h".to_string(), 3)));
}

#[test]
fn test_unknown_verifier_profile() {
    let reg = setup();
    assert_eq!(reg.get_verifier_profile(77), None);
    assert!(!reg.is_verifier_active(77));
}
