use farm_credit::rbac::{Error, RbacContract, RoleType};

const SUPER_ADMIN: u64 = 1;

fn setup() -> RbacContract {
    let mut client = RbacContract::new();
    client.initialize(SUPER_ADMIN).unwrap();
    client
}

#[test]
fn test_initialize_sets_super_admin() {
    let client = setup();
    assert_eq!(client.get_super_admin(), SUPER_ADMIN);
    assert!(client.is_super_admin(SUPER_ADMIN));
    assert_eq!(client.get_role(SUPER_ADMIN), 0u32);
}

#[test]
fn test_rbac_initialize_twice_fails() {
    let mut client = setup();
    assert_eq!(client.initialize(2), Err(Error::AlreadyInitialized));
    assert_eq!(client.get_super_admin(), SUPER_ADMIN);
}

#[test]
fn test_get_role_returns_255_for_unknown() {
    let client = setup();
    assert_eq!(client.get_role(42), 255u32);
}

#[test]
fn test_get_role_verifier_is_1() {
    let mut client = setup();
    client.add_verifier(10).unwrap();
    assert_eq!(client.get_role(10), 1u32);
}

#[test]
fn test_get_role_trader_is_2() {
    let mut client = setup();
    client.add_trader(11).unwrap();
    assert_eq!(client.get_role(11), 2u32);
}

#[test]
fn test_get_role_admin_is_3() {
    let mut client = setup();
    client.grant_admin(SUPER_ADMIN, 12).unwrap();
    assert_eq!(client.get_role(12), 3u32);
    assert!(client.is_admin(12));
}

#[test]
fn test_add_verifier_twice_fails() {
    let mut client = setup();
    client.add_verifier(10).unwrap();
    assert_eq!(client.add_verifier(10), Err(Error::RoleAlreadyAssigned));
}

#[test]
fn test_remove_verifier() {
    let mut client = setup();
    client.add_verifier(10).unwrap();
    assert!(client.is_verifier(10));
    client.remove_verifier(10).unwrap();
    assert!(!client.is_verifier(10));
    assert_eq!(client.get_role(10), 255u32);
}

#[test]
fn test_remove_nonexistent_verifier_fails() {
    let mut client = setup();
    assert_eq!(client.remove_verifier(99), Err(Error::RoleNotAssigned));
}

#[test]
fn test_super_admin_cannot_be_added_as_verifier() {
    let mut client = setup();
    assert_eq!(client.add_verifier(SUPER_ADMIN), Err(Error::AddressHasDifferentRole));
}

#[test]
fn test_multiple_verifiers() {
    let mut client = setup();
    for v in [10u64, 11, 12] {
        client.add_verifier(v).unwrap();
    }
    assert!(client.is_verifier(10));
    assert!(client.is_verifier(11));
    assert!(client.is_verifier(12));
}

#[test]
fn test_remove_trader_not_assigned() {
    let mut client = setup();
    assert_eq!(client.remove_trader(20), Err(Error::RoleNotAssigned));
}

#[test]
fn test_remove_trader() {
    let mut client = setup();
    client.add_trader(20).unwrap();
    client.remove_trader(20).unwrap();
    assert!(!client.is_trader(20));
    assert_eq!(client.get_role(20), 255u32);
}

#[test]
fn test_verifier_cannot_be_added_as_trader() {
    let mut client = setup();
    client.add_verifier(30).unwrap();
    assert_eq!(client.add_trader(30), Err(Error::AddressHasDifferentRole));
}

#[test]
fn test_trader_cannot_be_removed_as_verifier() {
    let mut client = setup();
    client.add_trader(30).unwrap();
    assert_eq!(client.remove_verifier(30), Err(Error::RoleNotAssigned));
    assert!(client.is_trader(30));
}

#[test]
fn test_has_role_verifier() {
    let mut client = setup();
    client.add_verifier(10).unwrap();
    assert!(client.has_role(10, &"Verifier".to_string()));
    assert!(!client.has_role(10, &"Trader".to_string()));
    assert!(!client.has_role(10, &"Admin".to_string()));
}

#[test]
fn test_has_role_super_admin() {
    let client = setup();
    assert!(client.has_role(SUPER_ADMIN, &"Admin".to_string()));
    assert!(client.has_role(SUPER_ADMIN, &"SuperAdmin".to_string()));
    assert!(!client.has_role(SUPER_ADMIN, &"Verifier".to_string()));
}

#[test]
fn test_has_role_unknown_role_name_is_false() {
    let mut client = setup();
    client.add_trader(20).unwrap();
    assert!(!client.has_role(20, &"trader".to_string()));
    assert!(!client.has_role(20, &"".to_string()));
}

#[test]
fn test_has_role_unknown_address_is_false() {
    let client = setup();
    assert!(!client.has_role(77, &"Verifier".to_string()));
    assert!(!client.has_role(77, &"Admin".to_string()));
    assert!(!client.has_role(77, &"Trader".to_string()));
}

#[test]
fn test_grant_requires_admin() {
    let mut client = setup();
    client.add_verifier(10).unwrap();
    assert_eq!(client.grant_trader(10, 20), Err(Error::Unauthorized));
    assert_eq!(client.grant_verifier(55, 20), Err(Error::Unauthorized));
    assert_eq!(client.grant_admin(55, 20), Err(Error::Unauthorized));
    assert_eq!(client.get_role(20), 255u32);
}

#[test]
fn test_admin_can_grant_and_revoke() {
    let mut client = setup();
    client.grant_admin(SUPER_ADMIN, 12).unwrap();
    client.grant_verifier(12, 13).unwrap();
    client.grant_trader(12, 14).unwrap();
    assert_eq!(client.read_role(13), Some(RoleType::Verifier));
    assert_eq!(client.read_role(14), Some(RoleType::Trader));
    client.revoke_role(12, 13).unwrap();
    assert_eq!(client.read_role(13), None);
    assert_eq!(client.revoke_role(12, 13), Err(Error::RoleNotAssigned));
    assert_eq!(client.grant_admin(12, 12), Err(Error::RoleAlreadyAssigned));
}

#[test]
fn test_super_admin_cannot_be_revoked() {
    let mut client = setup();
    client.grant_admin(SUPER_ADMIN, 12).unwrap();
    assert_eq!(client.revoke_role(12, SUPER_ADMIN), Err(Error::CannotRemoveSuperAdmin));
    assert!(client.is_super_admin(SUPER_ADMIN));
}

#[test]
fn test_transfer_admin() {
    let mut client = setup();
    client.transfer_admin(SUPER_ADMIN, 2).unwrap();
    assert_eq!(client.get_super_admin(), 2);
    assert!(client.is_super_admin(2));
    assert!(!client.is_super_admin(SUPER_ADMIN));
    assert_eq!(client.get_role(SUPER_ADMIN), 255u32);
}

#[test]
fn test_transfer_admin_by_non_super_admin_fails() {
    let mut client = setup();
    client.add_verifier(10).unwrap();
    assert_eq!(client.transfer_admin(10, 11), Err(Error::Unauthorized));
    assert_eq!(client.get_super_admin(), SUPER_ADMIN);
}

#[test]
fn test_transfer_admin_replaces_role_of_new_admin() {
    let mut client = setup();
    client.add_verifier(10).unwrap();
    client.transfer_admin(SUPER_ADMIN, 10).unwrap();
    assert_eq!(client.get_role(10), 0u32);
    assert!(!client.is_verifier(10));
}

#[test]
fn test_add_then_remove_verifier_restores_roles() {
    let mut client = setup();
    client.add_trader(20).unwrap();
    client.add_verifier(10).unwrap();
    client.remove_verifier(10).unwrap();
    assert_eq!(client.get_role(10), 255u32);
    assert_eq!(client.get_role(20), 2u32);
    assert_eq!(client.get_role(SUPER_ADMIN), 0u32);
}

#[test]
fn test_single_super_admin_after_transfer() {
    let mut client = setup();
    client.grant_admin(SUPER_ADMIN, 12).unwrap();
    client.transfer_admin(SUPER_ADMIN, 12).unwrap();
    let holders: Vec<u64> = (0..20u64).filter(|a| client.is_super_admin(*a)).collect();
    assert_eq!(holders, vec![12]);
}

#[test]
fn test_revoked_verifier_holds_no_role() {
    let mut client = setup();
    client.add_verifier(10).unwrap();
    client.add_trader(11).unwrap();
    client.remove_verifier(10).unwrap();
    assert_eq!(client.read_role(10), None);
    assert!(!client.is_verifier(10));
    assert!(!client.is_trader(10));
    assert!(!client.is_super_admin(10));
    assert_eq!(client.read_role(11), Some(RoleType::Trader));
    assert_eq!(client.read_role(SUPER_ADMIN), Some(RoleType::SuperAdmin));
}
