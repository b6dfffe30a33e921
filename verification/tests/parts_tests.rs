use farm_credit::escrow::{EscrowContract, EscrowParts, Offer};
use farm_credit::rbac::{RbacContract, RbacParts, RoleType};
use farm_credit::registry::{RegistryParts, VerifierProfile, VerifierRegistry};
use farm_credit::token::{AllowanceValue, CarbonCreditToken, Certificate, TokenParts};

fn token_parts() -> TokenParts {
    TokenParts {
        initialized: true,
        admin: Some(1),
        super_admin: None,
        rbac_contract: Some(2),
        name: "Carbon Credit Token".to_string(),
        symbol: "CCT".to_string(),
        decimals: 0,
        total_supply: 700,
        total_retired: 300,
        balances: vec![(10, 500), (11, 200)],
        allowances: vec![((10, 11), AllowanceValue { amount: 50, expiration_ledger: 9 })],
        certificates: vec![(10, Certificate { id: 1, amount: 300, timestamp: 5 })],
        verifiers: vec![(3, true)],
        blacklisted: vec![],
    }
}

#[test]
fn test_token_round_trip_through_parts() {
    let mut token = CarbonCreditToken::new();
    token.initialize(1, 2, "Carbon Credit Token".to_string(), "CCT".to_string(), 0);
    token.mint(10, 1000, true);
    token.transfer(10, 11, 200);
    token.retire(10, 300, 5);
    token.approve(10, 11, 50, 9, 1);
    let parts = token.into_parts();
    assert_eq!(parts.total_supply, 700);
    let mut back = CarbonCreditToken::from_parts(parts).unwrap();
    assert_eq!(back.balance(10), 500);
    assert_eq!(back.balance(11), 200);
    assert_eq!(back.total_retired(), 300);
    assert_eq!(back.allowance(10, 11, 9), 50);
    assert_eq!(back.get_certificates(10), vec![Certificate { id: 1, amount: 300, timestamp: 5 }]);
    assert_eq!(back.name(), "Carbon Credit Token");
    back.transfer(11, 12, 200);
    assert_eq!(back.balance(12), 200);
}

#[test]
fn test_token_parts_accepted_when_well_formed() {
    let token = CarbonCreditToken::from_parts(token_parts()).unwrap();
    assert_eq!(token.balance(10), 500);
    assert!(token.is_verifier(3));
    assert_eq!(token.get_certificate_count(), 1);
}

#[test]
fn test_token_parts_refused_when_malformed() {
    let mut p = token_parts();
    p.total_supply = 701;
    assert!(CarbonCreditToken::from_parts(p).is_none());
    let mut p = token_parts();
    p.balances = vec![(10, 900), (11, -200)];
    assert!(CarbonCreditToken::from_parts(p).is_none());
    let mut p = token_parts();
    p.balances = vec![(10, 500), (10, 200)];
    assert!(CarbonCreditToken::from_parts(p).is_none());
    let mut p = token_parts();
    p.certificates = vec![(10, Certificate { id: 2, amount: 300, timestamp: 5 })];
    assert!(CarbonCreditToken::from_parts(p).is_none());
    let mut p = token_parts();
    p.allowances = vec![((10, 11), AllowanceValue { amount: -1, expiration_ledger: 9 })];
    assert!(CarbonCreditToken::from_parts(p).is_none());
    let mut p = token_parts();
    p.initialized = false;
    assert!(CarbonCreditToken::from_parts(p).is_none());
    let mut p = token_parts();
    p.admin = None;
    assert!(CarbonCreditToken::from_parts(p).is_none());
    let mut p = token_parts();
    p.rbac_contract = None;
    assert!(CarbonCreditToken::from_parts(p).is_none());
    let mut p = token_parts();
    p.balances = vec![(10, i128::MAX), (11, i128::MAX)];
    assert!(CarbonCreditToken::from_parts(p).is_none());
}

#[test]
fn test_rbac_round_trip_through_parts() {
    let mut r = RbacContract::new();
    r.initialize(1).unwrap();
    r.add_verifier(2).unwrap();
    r.add_trader(3).unwrap();
    let back = RbacContract::from_parts(r.into_parts()).unwrap();
    assert_eq!(back.get_super_admin(), 1);
    assert_eq!(back.get_role(2), 1);
    assert_eq!(back.get_role(3), 2);
}

#[test]
fn test_rbac_parts_refused_when_malformed() {
    let two_super_admins = RbacParts {
        initialized: true,
        super_admin: Some(1),
        roles: vec![(1, RoleType::SuperAdmin), (2, RoleType::SuperAdmin)],
    };
    assert!(RbacContract::from_parts(two_super_admins).is_none());
    let roles_before_init =
        RbacParts { initialized: false, super_admin: None, roles: vec![(2, RoleType::Trader)] };
    assert!(RbacContract::from_parts(roles_before_init).is_none());
    let no_super_admin = RbacParts { initialized: true, super_admin: None, roles: vec![] };
    assert!(RbacContract::from_parts(no_super_admin).is_none());
    let duplicate = RbacParts {
        initialized: true,
        super_admin: Some(1),
        roles: vec![(2, RoleType::Trader), (2, RoleType::Verifier)],
    };
    assert!(RbacContract::from_parts(duplicate).is_none());
}

fn profile(active: bool) -> VerifierProfile {
    VerifierProfile {
        name: "Agro".to_string(),
        registration_date: 4,
        jurisdiction: "KE".to_string(),
        is_active: active,
    }
}

#[test]
fn test_registry_parts() {
    let ok = RegistryParts {
        initialized: true,
        super_admin: Some(1),
        registered: vec![(2, true)],
        profiles: vec![(2, profile(true)), (3, profile(false))],
        reports: vec![(9, (2, "h".to_string(), 5))],
    };
    let reg = VerifierRegistry::from_parts(ok).unwrap();
    assert!(reg.is_verifier_active(2));
    assert!(!reg.is_verifier_active(3));
    assert_eq!(reg.get_farmer_report(9), Some((2, "h".to_string(), 5)));
    let back = VerifierRegistry::from_parts(reg.into_parts()).unwrap();
    assert!(back.is_verifier_registered(2));

    let inactive_but_registered = RegistryParts {
        initialized: true,
        super_admin: Some(1),
        registered: vec![(3, true)],
        profiles: vec![(3, profile(false))],
        reports: vec![],
    };
    assert!(VerifierRegistry::from_parts(inactive_but_registered).is_none());
    let active_but_unregistered = RegistryParts {
        initialized: true,
        super_admin: Some(1),
        registered: vec![],
        profiles: vec![(3, profile(true))],
        reports: vec![],
    };
    assert!(VerifierRegistry::from_parts(active_but_unregistered).is_none());
}

fn big_offer(filled_usdc: i128) -> Offer {
    Offer {
        offer_id: 1,
        seller: 5,
        carbon_amount: 10,
        usdc_amount: i128::MAX / 3,
        filled_carbon: 9,
        filled_usdc,
        carbon_token: 6,
        usdc_token: 7,
        is_cancelled: false,
    }
}

#[test]
fn test_escrow_parts_with_large_amounts() {
    // 9 credits sold at a rate of (i128::MAX / 3) / 10 each: the products
    // compared when the offer is validated exceed i128.
    let rate_price = (9 * ((i128::MAX / 3) / 10)) as i128;
    let ok = EscrowParts { initialized: true, next_offer_id: 2, offers: vec![(1, big_offer(rate_price))] };
    let escrow = EscrowContract::from_parts(ok).unwrap();
    assert_eq!(escrow.get_offer(1), Some(big_offer(rate_price)));
    let back = EscrowContract::from_parts(escrow.into_parts()).unwrap();
    assert_eq!(back.next_offer_id(), 2);

    let overpaid = EscrowParts {
        initialized: true,
        next_offer_id: 2,
        offers: vec![(1, big_offer(i128::MAX / 3))],
    };
    assert!(EscrowContract::from_parts(overpaid).is_none());
    let wrong_key = EscrowParts { initialized: true, next_offer_id: 3, offers: vec![(2, big_offer(0))] };
    assert!(EscrowContract::from_parts(wrong_key).is_none());
    let id_not_below_next =
        EscrowParts { initialized: true, next_offer_id: 1, offers: vec![(1, big_offer(0))] };
    assert!(EscrowContract::from_parts(id_not_below_next).is_none());
}
