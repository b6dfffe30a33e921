use farm_credit::escrow::{EscrowContract, Party, TokenTransfer};
use farm_credit::token::{check_nonnegative_amount, AllowanceValue, CarbonCreditToken, Certificate, Error};

const ADMIN: u64 = 1;
const RBAC: u64 = 2;
const VERIFIER_IS_ALLOWED: bool = true;

fn setup() -> CarbonCreditToken {
    let mut token = CarbonCreditToken::new();
    token
        .initialize(ADMIN, RBAC, "Carbon Credit Token".to_string(), "CCT".to_string(), 0u32);
    token
}

#[test]
fn test_retire_and_certificate_issuance() {
    let mut token = setup();
    let user = 10u64;
    let timestamp = 123456789u64;

    token.mint(user, 1000, VERIFIER_IS_ALLOWED);
    assert_eq!(token.balance(user), 1000);

    token.retire(user, 300, timestamp);
    assert_eq!(token.balance(user), 700);
    assert_eq!(token.total_retired(), 300);

    let certs = token.get_certificates(user);
    assert_eq!(certs.len(), 1);
    let cert = certs[0];
    assert_eq!(cert.id, 1);
    assert_eq!(cert.amount, 300);
    assert!(cert.timestamp > 0);
    assert_eq!(token.get_certificate_count(), 1);

    token.retire(user, 200, timestamp);
    let certs2 = token.get_certificates(user);
    assert_eq!(certs2.len(), 2);
    assert_eq!(certs2[1].amount, 200);
    assert_eq!(token.get_certificate_count(), 2);
}

#[test]
fn test_view_certificates_empty() {
    let token = setup();
    let nobody = 99u64;
    let certs = token.get_certificates(nobody);
    assert_eq!(certs.len(), 0);
}

/// Carries out the movements that the escrow asks for, on two token
/// ledgers that stand for the carbon credits and the payment token.
fn settle(
    transfers: &[TokenTransfer],
    escrow_account: u64,
    carbon_id: u64,
    carbon: &mut CarbonCreditToken,
    usdc: &mut CarbonCreditToken,
) {
    for t in transfers {
        let account = |p: Party| match p {
            Party::Escrow => escrow_account,
            Party::Account(a) => a,
        };
        let ledger = if t.token == carbon_id { &mut *carbon } else { &mut *usdc };
        ledger.transfer(account(t.from), account(t.to), t.amount);
    }
}

#[test]
fn test_carbon_credit_lifecycle() {
    let super_admin = 1u64;
    let oracle = 2u64;
    let farmer = 3u64;
    let corporate = 4u64;
    let escrow_account = 500u64;
    let carbon_id = 600u64;
    let usdc_id = 601u64;

    let mut cct = CarbonCreditToken::new();
    cct.initialize(super_admin, RBAC, "Carbon Credit".to_string(), "CCT".to_string(), 0u32);
    let mut usdc = CarbonCreditToken::new();
    usdc.initialize(super_admin, RBAC, "USD Coin".to_string(), "USDC".to_string(), 6u32);
    usdc.mint(corporate, 10_000, true);

    cct.grant_verifier(oracle);
    assert!(cct.is_verifier(oracle));

    cct.mint(farmer, 100, true);
    assert_eq!(cct.balance(farmer), 100);

    let mut escrow = EscrowContract::new();
    escrow.initialize();
    let (offer_id, lock) = escrow.create_offer(farmer, 100, 5000, carbon_id, usdc_id);
    settle(&[lock], escrow_account, carbon_id, &mut cct, &mut usdc);
    assert_eq!(cct.balance(farmer), 0);
    assert_eq!(cct.balance(escrow_account), 100);

    let swap = escrow.fill_offer(offer_id, corporate, 100);
    settle(&swap, escrow_account, carbon_id, &mut cct, &mut usdc);
    assert_eq!(usdc.balance(corporate), 5000);
    assert_eq!(usdc.balance(farmer), 5000);
    assert_eq!(cct.balance(escrow_account), 0);
    assert_eq!(cct.balance(corporate), 100);
    assert!(escrow.get_offer(offer_id).is_none());

    cct.retire(corporate, 100, 1);
    assert_eq!(cct.balance(corporate), 0);
    assert_eq!(cct.total_retired(), 100);
    assert_eq!(cct.total_supply(), 0);
}

#[test]
fn test_token_initialize_records_settings() {
    let token = setup();
    assert!(token.is_initialized());
    assert_eq!(token.admin(), ADMIN);
    assert_eq!(token.rbac_contract(), RBAC);
    assert_eq!(token.name(), "Carbon Credit Token");
    assert_eq!(token.symbol(), "CCT");
    assert_eq!(token.decimals(), 0);
    assert_eq!(token.total_supply(), 0);
    assert_eq!(token.total_retired(), 0);
}

#[test]
fn test_check_nonnegative_amount() {
    check_nonnegative_amount(0);
    check_nonnegative_amount(5);
    check_nonnegative_amount(i128::MAX);
}

#[test]
fn test_mint_credits_account_and_supply() {
    let mut token = setup();
    token.mint(10, 50, true);
    token.mint(10, 0, true);
    token.mint(11, 25, true);
    assert_eq!(token.balance(10), 50);
    assert_eq!(token.balance(11), 25);
    assert_eq!(token.total_supply(), 75);
}

#[test]
fn test_transfer_moves_balance_and_keeps_supply() {
    let mut token = setup();
    token.mint(10, 1000, true);
    token.transfer(10, 11, 400);
    assert_eq!(token.balance(10), 600);
    assert_eq!(token.balance(11), 400);
    assert_eq!(token.total_supply(), 1000);
    token.transfer(11, 10, 0);
    assert_eq!(token.balance(10), 600);
    token.transfer(11, 11, 400);
    assert_eq!(token.balance(11), 400);
}

#[test]
fn test_approve_allowance_and_expiry() {
    let mut token = setup();
    token.mint(10, 1000, true);
    token.approve(10, 20, 300, 100, 50);
    assert_eq!(token.allowance(10, 20, 50), 300);
    assert_eq!(token.allowance(10, 20, 100), 300);
    assert_eq!(token.allowance(10, 20, 101), 0);
    assert_eq!(token.allowance(20, 10, 50), 0);
    token.approve(10, 21, 7, 50, 50);
    assert_eq!(token.allowance(10, 21, 50), 7);
    assert_eq!(token.allowance(10, 20, 50), 300);
    token.approve(10, 20, 0, 0, 50);
    assert_eq!(token.allowance(10, 20, 50), 0);
}

#[test]
fn test_transfer_from_spends_allowance() {
    let mut token = setup();
    token.mint(10, 1000, true);
    token.approve(10, 20, 300, 100, 50);
    token.transfer_from(20, 10, 30, 120, 60);
    assert_eq!(token.balance(10), 880);
    assert_eq!(token.balance(30), 120);
    assert_eq!(token.allowance(10, 20, 60), 180);
    assert_eq!(token.allowance(10, 20, 101), 0);
    token.approve(10, 20, 5000, 100, 60);
    token.transfer_from(20, 10, 30, 880, 60);
    assert_eq!(token.balance(10), 0);
    assert_eq!(token.balance(30), 1000);
    assert_eq!(token.allowance(10, 20, 60), 4120);
    assert_eq!(token.total_supply(), 1000);
}

#[test]
fn test_burn_and_burn_from() {
    let mut token = setup();
    token.mint(10, 1000, true);
    token.burn(10, 100);
    assert_eq!(token.balance(10), 900);
    assert_eq!(token.total_supply(), 900);
    token.approve(10, 20, 50, 10, 1);
    token.burn_from(20, 10, 50, 2);
    assert_eq!(token.balance(10), 850);
    assert_eq!(token.total_supply(), 850);
    assert_eq!(token.allowance(10, 20, 2), 0);
}

#[test]
fn test_retire_whole_balance() {
    let mut token = setup();
    token.mint(10, 100, true);
    let c = token.retire(10, 100, 5);
    assert_eq!(c, Certificate { id: 1, amount: 100, timestamp: 5 });
    assert_eq!(token.balance(10), 0);
    assert_eq!(token.total_supply(), 0);
    assert_eq!(token.total_retired(), 100);
    assert_eq!(token.get_certificate_count(), 1);
}

#[test]
fn test_retire_moves_supply_into_retired() {
    let mut token = setup();
    token.mint(10, 100, true);
    token.mint(11, 50, true);
    let before = token.total_supply() + token.total_retired();
    let c1 = token.retire(10, 30, 7);
    let c2 = token.retire(11, 20, 8);
    assert_eq!(token.total_supply() + token.total_retired(), before);
    assert_eq!(token.total_supply(), 100);
    assert_eq!(c1, Certificate { id: 1, amount: 30, timestamp: 7 });
    assert_eq!(c2, Certificate { id: 2, amount: 20, timestamp: 8 });
    assert_eq!(token.get_certificates(11), vec![c2]);
}

#[test]
fn test_supply_equals_sum_of_balances() {
    let mut token = setup();
    token.mint(10, 1000, true);
    token.mint(11, 500, true);
    token.transfer(10, 12, 250);
    token.burn(11, 100);
    token.retire(12, 50, 1);
    let sum: i128 = (0..20u64).map(|a| token.balance(a)).sum();
    assert_eq!(sum, token.total_supply());
    assert_eq!(sum, 1350);
}

#[test]
fn test_admin_and_flags() {
    let mut token = setup();
    assert!(token.has_administrator());
    assert_eq!(token.read_administrator(), ADMIN);
    token.write_administrator(5);
    assert_eq!(token.admin(), 5);
    assert!(!token.has_super_admin());
    token.write_super_admin(6);
    assert_eq!(token.read_super_admin(), 6);
    assert!(!token.is_verifier(7));
    token.grant_verifier(7);
    assert!(token.is_verifier(7));
    token.revoke_verifier(7);
    assert!(!token.is_verifier(7));
    token.blacklist_address(8);
    assert!(token.is_blacklisted(8));
    token.unblacklist_address(8);
    assert!(!token.is_blacklisted(8));
}

#[test]
fn test_error_codes() {
    assert_eq!(Error::AlreadyInitialized.code(), 1);
    assert_eq!(Error::InvalidExpirationLedger.code(), 9);
    assert_eq!(Error::NegativeAmount.code(), 2);
    let v = AllowanceValue { amount: 3, expiration_ledger: 4 };
    assert_eq!(v.amount + i128::from(v.expiration_ledger), 7);
}

#[test]
fn test_supply_and_retired_are_minted_less_burned() {
    let mut token = setup();
    token.mint(10, 1000, true);
    token.mint(11, 500, true);
    token.burn(11, 100);
    token.approve(10, 20, 60, 10, 1);
    token.burn_from(20, 10, 50, 1);
    token.transfer(10, 12, 200);
    token.retire(12, 70, 3);
    assert_eq!(token.total_supply() + token.total_retired(), 1500 - 150);
    assert_eq!(token.total_retired(), 70);
}

#[test]
fn test_initialization_is_permanent() {
    let mut token = setup();
    token.mint(10, 100, true);
    token.transfer(10, 11, 40);
    token.approve(10, 11, 5, 9, 1);
    token.burn(11, 10);
    token.retire(10, 20, 2);
    token.write_administrator(9);
    token.grant_verifier(3);
    token.blacklist_address(4);
    assert!(token.is_initialized());
    assert_eq!(token.rbac_contract(), RBAC);
    assert_eq!(token.name(), "Carbon Credit Token");
    assert_eq!(token.symbol(), "CCT");
    assert_eq!(token.decimals(), 0);
}
