use farm_credit::escrow::{EscrowContract, Offer, Party, TokenTransfer};

const SELLER: u64 = 1;
const BUYER: u64 = 2;
const CARBON: u64 = 10;
const USDC: u64 = 11;

fn create_escrow() -> EscrowContract {
    let mut escrow = EscrowContract::new();
    escrow.initialize();
    escrow
}

fn offer(carbon_amount: i128, usdc_amount: i128, filled_carbon: i128, filled_usdc: i128) -> Offer {
    Offer {
        offer_id: 1,
        seller: SELLER,
        carbon_amount,
        usdc_amount,
        filled_carbon,
        filled_usdc,
        carbon_token: CARBON,
        usdc_token: USDC,
        is_cancelled: false,
    }
}

#[test]
fn test_create_offer_locks_carbon() {
    let mut escrow = create_escrow();
    let (id, lock) = escrow.create_offer(SELLER, 1000, 5000, CARBON, USDC);
    assert_eq!(id, 1);
    assert_eq!(
        lock,
        TokenTransfer { token: CARBON, from: Party::Account(SELLER), to: Party::Escrow, amount: 1000 }
    );
    assert_eq!(escrow.get_offer(1), Some(offer(1000, 5000, 0, 0)));
    let (id2, _) = escrow.create_offer(SELLER, 10, 50, CARBON, USDC);
    assert_eq!(id2, 2);
}

#[test]
fn test_fill_offer_partial() {
    let mut escrow = create_escrow();
    escrow.create_offer(SELLER, 1000, 5000, CARBON, USDC);
    let moves = escrow.fill_offer(1, BUYER, 100);
    assert_eq!(
        moves,
        vec![
            TokenTransfer { token: USDC, from: Party::Account(BUYER), to: Party::Escrow, amount: 500 },
            TokenTransfer { token: CARBON, from: Party::Escrow, to: Party::Account(BUYER), amount: 100 },
            TokenTransfer { token: USDC, from: Party::Escrow, to: Party::Account(SELLER), amount: 500 },
        ]
    );
    assert_eq!(escrow.get_remaining_amount(1), (900, 4500));
}

#[test]
fn test_fill_offer_full_removes_offer() {
    let mut escrow = create_escrow();
    escrow.create_offer(SELLER, 1000, 5000, CARBON, USDC);
    escrow.fill_offer(1, BUYER, 1000);
    assert!(escrow.get_offer(1).is_none());
    assert_eq!(escrow.get_remaining_amount(1), (0, 0));
}

#[test]
fn test_fill_price_is_floored() {
    let mut escrow = create_escrow();
    escrow.create_offer(SELLER, 3, 10, CARBON, USDC);
    let moves = escrow.fill_offer(1, BUYER, 1);
    assert_eq!(moves[0].amount, 3);
    assert_eq!(escrow.get_remaining_amount(1), (2, 7));
}

#[test]
fn test_cancel_offer_returns_remaining_carbon() {
    let mut escrow = create_escrow();
    escrow.create_offer(SELLER, 1000, 5000, CARBON, USDC);
    escrow.fill_offer(1, BUYER, 300);
    let back = escrow.cancel_offer(1, SELLER);
    assert_eq!(
        back,
        TokenTransfer { token: CARBON, from: Party::Escrow, to: Party::Account(SELLER), amount: 700 }
    );
    assert!(escrow.get_offer(1).unwrap().is_cancelled);
    assert_eq!(escrow.get_remaining_amount(1), (700, 3500));
}

#[test]
fn test_get_nonexistent_offer_returns_none() {
    let escrow = create_escrow();
    assert!(escrow.get_offer(999).is_none());
}

#[test]
fn test_get_remaining_amount_nonexistent_offer() {
    let escrow = create_escrow();
    assert_eq!(escrow.get_remaining_amount(999), (0, 0));
}

#[test]
fn test_offer_remaining_carbon() {
    let o = offer(1000, 5000, 300, 1500);
    assert_eq!(o.remaining_carbon(), 700);
    assert_eq!(o.remaining_usdc(), 3500);
}

#[test]
fn test_offer_remaining_usdc() {
    let o = offer(100, 1000, 50, 500);
    assert_eq!(o.remaining_carbon(), 50);
    assert_eq!(o.remaining_usdc(), 500);
}

#[test]
fn test_offer_is_fully_filled() {
    assert!(!offer(1000, 5000, 999, 4995).is_fully_filled());
    assert!(offer(1000, 5000, 1000, 5000).is_fully_filled());
    assert!(offer(1000, 5000, 1100, 5500).is_fully_filled());
}

#[test]
fn test_partial_fill_multiple_fills() {
    let mut escrow = create_escrow();
    escrow.create_offer(SELLER, 1000, 5000, CARBON, USDC);
    escrow.fill_offer(1, BUYER, 300);
    assert_eq!(escrow.get_remaining_amount(1), (700, 3500));
    escrow.fill_offer(1, BUYER, 400);
    assert_eq!(escrow.get_remaining_amount(1), (300, 1500));
    escrow.fill_offer(1, BUYER, 300);
    assert!(escrow.get_offer(1).is_none());
}

#[test]
fn test_partial_fill_scaling_different_ratios() {
    let mut escrow = create_escrow();
    escrow.create_offer(SELLER, 100, 1000, CARBON, USDC);
    let moves = escrow.fill_offer(1, BUYER, 25);
    assert_eq!(moves[0].amount, 250);
    assert_eq!(moves[2].amount, 250);
}
