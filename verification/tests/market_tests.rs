use nft_marketplace::errors::MarketError;
use nft_marketplace::market::{Contract, MIN_ATTACHED_AMOUNT};
use nft_marketplace::sale::Status;

fn listed_contract(price: u128, deposit: u128) -> Contract {
    let mut c = Contract::new("admin".to_string());
    let r = c.add_sale(
        "nft-service".to_string(),
        "token-1".to_string(),
        price,
        None,
        "alice".to_string(),
        deposit,
    );
    assert_eq!(r, Ok(()));
    c
}

#[test]
fn new_contract_has_no_listings() {
    let c = Contract::new("admin".to_string());
    assert_eq!(c.owner, "admin".to_string());
    let r = c.get_sale("nft-service".to_string(), "token-1".to_string());
    assert!(matches!(r, Err(MarketError::NotFound)));
}

#[test]
fn add_sale_at_exact_minimum_succeeds() {
    let mut c = Contract::new("admin".to_string());
    let r = c.add_sale(
        "nft-service".to_string(),
        "token-1".to_string(),
        5,
        None,
        "alice".to_string(),
        MIN_ATTACHED_AMOUNT,
    );
    assert_eq!(r, Ok(()));
    let sale = c
        .get_sale("nft-service".to_string(), "token-1".to_string())
        .unwrap();
    assert_eq!(sale.owner, "alice".to_string());
    assert_eq!(sale.beneficiary, "alice".to_string());
    assert_eq!(sale.price, 5);
    assert_eq!(sale.deposit, MIN_ATTACHED_AMOUNT);
    assert_eq!(sale.status, Status::Listed);
}

#[test]
fn add_sale_below_minimum_fails() {
    let mut c = Contract::new("admin".to_string());
    let r = c.add_sale(
        "nft-service".to_string(),
        "token-1".to_string(),
        5,
        None,
        "alice".to_string(),
        MIN_ATTACHED_AMOUNT - 1,
    );
    assert_eq!(r, Err(MarketError::InsufficientDeposit));
    let r = c.get_sale("nft-service".to_string(), "token-1".to_string());
    assert!(matches!(r, Err(MarketError::NotFound)));
}

#[test]
fn add_sale_duplicate_key_rejected() {
    let mut c = listed_contract(5, MIN_ATTACHED_AMOUNT);
    let r = c.add_sale(
        "nft-service".to_string(),
        "token-1".to_string(),
        9,
        None,
        "mallory".to_string(),
        MIN_ATTACHED_AMOUNT,
    );
    assert_eq!(r, Err(MarketError::DuplicateListing));
    let sale = c
        .get_sale("nft-service".to_string(), "token-1".to_string())
        .unwrap();
    assert_eq!(sale.price, 5);
    assert_eq!(sale.beneficiary, "alice".to_string());
}

#[test]
fn add_sale_on_behalf_of_grants_ownership() {
    let mut c = Contract::new("admin".to_string());
    let r = c.add_sale(
        "nft-service".to_string(),
        "token-1".to_string(),
        5,
        Some("carol".to_string()),
        "alice".to_string(),
        MIN_ATTACHED_AMOUNT,
    );
    assert_eq!(r, Ok(()));
    let sale = c
        .get_sale("nft-service".to_string(), "token-1".to_string())
        .unwrap();
    assert_eq!(sale.owner, "carol".to_string());
    assert_eq!(sale.beneficiary, "alice".to_string());
}

#[test]
fn cancel_by_owner_refunds_deposit() {
    let mut c = listed_contract(5, MIN_ATTACHED_AMOUNT);
    let refund = c
        .remove_sale(
            "nft-service".to_string(),
            "token-1".to_string(),
            "alice".to_string(),
        )
        .unwrap();
    assert_eq!(refund.recipient, "alice".to_string());
    assert_eq!(refund.amount, MIN_ATTACHED_AMOUNT);
    let r = c.get_sale("nft-service".to_string(), "token-1".to_string());
    assert!(matches!(r, Err(MarketError::NotFound)));
}

#[test]
fn cancel_by_non_owner_leaves_listing_untouched() {
    let mut c = listed_contract(5, MIN_ATTACHED_AMOUNT);
    let r = c.remove_sale(
        "nft-service".to_string(),
        "token-1".to_string(),
        "mallory".to_string(),
    );
    assert!(matches!(r, Err(MarketError::NotOwner)));
    let sale = c
        .get_sale("nft-service".to_string(), "token-1".to_string())
        .unwrap();
    assert_eq!(sale.owner, "alice".to_string());
    assert_eq!(sale.deposit, MIN_ATTACHED_AMOUNT);
    assert_eq!(sale.status, Status::Listed);
}

#[test]
fn cancel_missing_listing_fails() {
    let mut c = Contract::new("admin".to_string());
    let r = c.remove_sale(
        "nft-service".to_string(),
        "token-1".to_string(),
        "alice".to_string(),
    );
    assert!(matches!(r, Err(MarketError::NotFound)));
}

#[test]
fn purchase_missing_listing_fails() {
    let mut c = Contract::new("admin".to_string());
    let r = c.purchase(
        "nft-service".to_string(),
        "token-1".to_string(),
        "bob".to_string(),
        5,
    );
    assert!(matches!(r, Err(MarketError::NotFound)));
}

#[test]
fn purchase_underpayment_rejected_without_side_effects() {
    let mut c = listed_contract(5, MIN_ATTACHED_AMOUNT);
    let r = c.purchase(
        "nft-service".to_string(),
        "token-1".to_string(),
        "bob".to_string(),
        4,
    );
    assert_eq!(r.err(), Some(MarketError::WrongAmount { payment: 4, price: 5 }));
    // no request went out, nothing was escrowed: the exact payment still buys
    let r = c.purchase(
        "nft-service".to_string(),
        "token-1".to_string(),
        "bob".to_string(),
        5,
    );
    assert!(r.is_ok());
}

#[test]
fn purchase_overpayment_rejected_without_side_effects() {
    let mut c = listed_contract(5, MIN_ATTACHED_AMOUNT);
    let r = c.purchase(
        "nft-service".to_string(),
        "token-1".to_string(),
        "bob".to_string(),
        6,
    );
    assert_eq!(r.err(), Some(MarketError::WrongAmount { payment: 6, price: 5 }));
    let sale = c
        .get_sale("nft-service".to_string(), "token-1".to_string())
        .unwrap();
    assert_eq!(sale.status, Status::Listed);
}

#[test]
fn purchase_builds_the_transfer_request() {
    let mut c = listed_contract(5, MIN_ATTACHED_AMOUNT);
    let req = c
        .purchase(
            "nft-service".to_string(),
            "token-1".to_string(),
            "bob".to_string(),
            5,
        )
        .unwrap();
    assert_eq!(req.receiver_id, "bob".to_string());
    assert_eq!(req.token_id, "token-1".to_string());
    assert_eq!(req.enforce_owner_id, "alice".to_string());
    assert_eq!(req.memo, "Sold by Market".to_string());
    let sale = c
        .get_sale("nft-service".to_string(), "token-1".to_string())
        .unwrap();
    assert_eq!(sale.status, Status::PurchasePending);
}

#[test]
fn round_trip_success_pays_beneficiary_and_removes_listing() {
    let mut c = listed_contract(5, MIN_ATTACHED_AMOUNT);
    let r = c.purchase(
        "nft-service".to_string(),
        "token-1".to_string(),
        "bob".to_string(),
        5,
    );
    assert!(r.is_ok());
    let settlement = c
        .nft_resolve_purchase(
            "nft-service".to_string(),
            "token-1".to_string(),
            "bob".to_string(),
            true,
        )
        .unwrap();
    assert!(settlement.succeeded);
    assert_eq!(settlement.payout.recipient, "alice".to_string());
    assert_eq!(settlement.payout.amount, 5 + MIN_ATTACHED_AMOUNT);
    let r = c.get_sale("nft-service".to_string(), "token-1".to_string());
    assert!(matches!(r, Err(MarketError::NotFound)));
}

#[test]
fn failed_transfer_refunds_buyer_and_reopens_listing() {
    let mut c = listed_contract(5, MIN_ATTACHED_AMOUNT);
    let r = c.purchase(
        "nft-service".to_string(),
        "token-1".to_string(),
        "bob".to_string(),
        5,
    );
    assert!(r.is_ok());
    let settlement = c
        .nft_resolve_purchase(
            "nft-service".to_string(),
            "token-1".to_string(),
            "bob".to_string(),
            false,
        )
        .unwrap();
    assert!(!settlement.succeeded);
    assert_eq!(settlement.payout.recipient, "bob".to_string());
    assert_eq!(settlement.payout.amount, 5);
    // listing survives with its deposit intact and can be bought again
    let sale = c
        .get_sale("nft-service".to_string(), "token-1".to_string())
        .unwrap();
    assert_eq!(sale.deposit, MIN_ATTACHED_AMOUNT);
    assert_eq!(sale.status, Status::Listed);
    let r = c.purchase(
        "nft-service".to_string(),
        "token-1".to_string(),
        "dave".to_string(),
        5,
    );
    assert!(r.is_ok());
}

#[test]
fn second_resolution_never_pays_again() {
    let mut c = listed_contract(5, MIN_ATTACHED_AMOUNT);
    let r = c.purchase(
        "nft-service".to_string(),
        "token-1".to_string(),
        "bob".to_string(),
        5,
    );
    assert!(r.is_ok());
    let settlement = c
        .nft_resolve_purchase(
            "nft-service".to_string(),
            "token-1".to_string(),
            "bob".to_string(),
            true,
        )
        .unwrap();
    assert!(settlement.succeeded);
    let again = c.nft_resolve_purchase(
        "nft-service".to_string(),
        "token-1".to_string(),
        "bob".to_string(),
        true,
    );
    assert!(matches!(again, Err(MarketError::InvariantViolation)));
}

#[test]
fn resolving_an_unknown_listing_aborts() {
    let mut c = Contract::new("admin".to_string());
    let r = c.nft_resolve_purchase(
        "nft-service".to_string(),
        "token-1".to_string(),
        "bob".to_string(),
        false,
    );
    assert!(matches!(r, Err(MarketError::InvariantViolation)));
}

#[test]
fn concurrent_purchase_of_pending_listing_rejected() {
    let mut c = listed_contract(5, MIN_ATTACHED_AMOUNT);
    let r = c.purchase(
        "nft-service".to_string(),
        "token-1".to_string(),
        "bob".to_string(),
        5,
    );
    assert!(r.is_ok());
    let second = c.purchase(
        "nft-service".to_string(),
        "token-1".to_string(),
        "eve".to_string(),
        5,
    );
    assert!(matches!(second, Err(MarketError::PurchaseInProgress)));
    // the pending listing and its escrow are exactly as the first buyer left them
    let sale = c
        .get_sale("nft-service".to_string(), "token-1".to_string())
        .unwrap();
    assert_eq!(sale.status, Status::PurchasePending);
}

#[test]
fn listings_on_distinct_keys_are_independent() {
    let mut c = listed_contract(5, MIN_ATTACHED_AMOUNT);
    let r = c.add_sale(
        "nft-service".to_string(),
        "token-2".to_string(),
        7,
        None,
        "carol".to_string(),
        MIN_ATTACHED_AMOUNT + 3,
    );
    assert_eq!(r, Ok(()));
    let refund = c
        .remove_sale(
            "nft-service".to_string(),
            "token-2".to_string(),
            "carol".to_string(),
        )
        .unwrap();
    assert_eq!(refund.amount, MIN_ATTACHED_AMOUNT + 3);
    let sale = c
        .get_sale("nft-service".to_string(), "token-1".to_string())
        .unwrap();
    assert_eq!(sale.price, 5);
}
