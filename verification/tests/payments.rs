use domain_market::contract::Contract;
use domain_market::payment::{
    pay_premium, pay_sale, refund_deposit, split_price, CallContext, Transfer, BASIS_POINTS,
    DEPOSIT_PREMIUM, STORAGE_PRICE_PER_BYTE, VAULT_FEE,
};
use domain_market::records::LedgerError;

fn paying(caller: &str, attached_deposit: u128, storage_used: u64) -> CallContext {
    CallContext {
        signer_account_id: caller.to_string(),
        predecessor_account_id: caller.to_string(),
        attached_deposit,
        block_timestamp: 42,
        storage_used,
    }
}

fn to(receiver: &str, amount: u128) -> Transfer {
    Transfer { receiver_id: receiver.to_string(), amount }
}

fn market_with_listing(price: u128) -> Contract {
    let mut market =
        Contract::new("owner.near".to_string(), "vault.near".to_string(), false).unwrap();
    market
        .publish_domain(&paying("owner.near", 0, 0), "x.near".to_string(), "s".to_string(), price)
        .unwrap();
    market
}

#[test]
fn the_fee_is_five_percent() {
    assert_eq!(VAULT_FEE, 500);
    assert_eq!(BASIS_POINTS, 10_000);
    assert_eq!(split_price(100), (95, 5));
    assert_eq!(split_price(10_000), (9_500, 500));
    assert_eq!(split_price(1_000_000_000_000_000_000_000_000), (
        950_000_000_000_000_000_000_000,
        50_000_000_000_000_000_000_000
    ));
}

#[test]
fn the_fee_is_rounded_down_in_favour_of_the_seller() {
    assert_eq!(split_price(0), (0, 0));
    assert_eq!(split_price(1), (1, 0));
    assert_eq!(split_price(19), (19, 0));
    assert_eq!(split_price(20), (19, 1));
    assert_eq!(split_price(39), (38, 1));
    assert_eq!(split_price(199), (190, 9));
}

#[test]
fn the_shares_make_up_the_largest_price() {
    let (seller, vault) = split_price(u128::MAX);
    assert_eq!(vault, u128::MAX / 20);
    assert_eq!(seller + vault, u128::MAX);
}

#[test]
fn the_premium_deposit_is_one_whole_token() {
    assert_eq!(DEPOSIT_PREMIUM, 1_000_000_000_000_000_000_000_000);
}

#[test]
fn a_byte_of_storage_costs_the_price_of_the_host() {
    assert_eq!(STORAGE_PRICE_PER_BYTE, 10_000_000_000_000_000_000);
    let refund = refund_deposit(&paying("b", STORAGE_PRICE_PER_BYTE + 5, 1), 1, 0);
    assert_eq!(refund, Ok(Some(to("b", 5))));
    let short = refund_deposit(&paying("b", STORAGE_PRICE_PER_BYTE - 1, 1), 1, 0);
    assert_eq!(short, Err(LedgerError::InsufficientPayment));
    let exact = refund_deposit(&paying("b", STORAGE_PRICE_PER_BYTE, 1), 1, 0);
    assert_eq!(exact, Ok(None));
}

#[test]
fn refund_returns_what_was_not_spent() {
    assert_eq!(refund_deposit(&paying("b", 150, 0), 0, 100), Ok(Some(to("b", 50))));
    assert_eq!(refund_deposit(&paying("b", 102, 0), 0, 100), Ok(Some(to("b", 2))));
}

#[test]
fn refund_keeps_a_remainder_of_one_unit() {
    assert_eq!(refund_deposit(&paying("b", 101, 0), 0, 100), Ok(None));
    assert_eq!(refund_deposit(&paying("b", 100, 0), 0, 100), Ok(None));
}

#[test]
fn refund_goes_to_the_account_that_called() {
    let ctx = CallContext {
        signer_account_id: "signer.near".to_string(),
        predecessor_account_id: "caller.near".to_string(),
        attached_deposit: 10,
        block_timestamp: 0,
        storage_used: 0,
    };
    assert_eq!(refund_deposit(&ctx, 0, 0), Ok(Some(to("caller.near", 10))));
}

#[test]
fn refund_fails_where_more_was_spent_than_attached() {
    assert_eq!(
        refund_deposit(&paying("b", 99, 0), 0, 100),
        Err(LedgerError::InsufficientPayment)
    );
}

#[test]
fn refund_covers_the_largest_storage() {
    let cost = STORAGE_PRICE_PER_BYTE * (u64::MAX as u128);
    assert_eq!(refund_deposit(&paying("b", cost + 3, 0), u64::MAX, 0), Ok(Some(to("b", 3))));
    assert_eq!(
        refund_deposit(&paying("b", cost - 1, 0), u64::MAX, 0),
        Err(LedgerError::InsufficientPayment)
    );
}

#[test]
fn premium_deposit_goes_to_the_vault_in_full() {
    let vault = "vault.near".to_string();
    assert_eq!(
        pay_premium(&vault, &paying("b", DEPOSIT_PREMIUM, 0)),
        Ok(vec![to("vault.near", DEPOSIT_PREMIUM)])
    );
    assert_eq!(
        pay_premium(&vault, &paying("b", DEPOSIT_PREMIUM + 1, 0)),
        Ok(vec![to("vault.near", DEPOSIT_PREMIUM)])
    );
    assert_eq!(
        pay_premium(&vault, &paying("b", DEPOSIT_PREMIUM + 2, 0)),
        Ok(vec![to("vault.near", DEPOSIT_PREMIUM), to("b", 2)])
    );
}

#[test]
fn premium_deposit_must_be_attached_in_full() {
    let vault = "vault.near".to_string();
    assert_eq!(
        pay_premium(&vault, &paying("b", DEPOSIT_PREMIUM - 1, 0)),
        Err(LedgerError::InsufficientPayment)
    );
    assert_eq!(pay_premium(&vault, &paying("b", 0, 0)), Err(LedgerError::InsufficientPayment));
}

#[test]
fn premium_deposit_does_not_pay_for_storage() {
    let vault = "vault.near".to_string();
    assert_eq!(
        pay_premium(&vault, &paying("b", DEPOSIT_PREMIUM, 1)),
        Err(LedgerError::InsufficientPayment)
    );
    assert_eq!(
        pay_premium(&vault, &paying("b", DEPOSIT_PREMIUM + 2 * STORAGE_PRICE_PER_BYTE, 2)),
        Ok(vec![to("vault.near", DEPOSIT_PREMIUM)])
    );
}

#[test]
fn sale_pays_seller_and_vault_then_refunds() {
    let seller = "s".to_string();
    let vault = "vault.near".to_string();
    assert_eq!(
        pay_sale(&seller, &vault, 100, &paying("b", 100, 0)),
        Ok(vec![to("s", 95), to("vault.near", 5)])
    );
    assert_eq!(
        pay_sale(&seller, &vault, 100, &paying("b", 130, 0)),
        Ok(vec![to("s", 95), to("vault.near", 5), to("b", 30)])
    );
    assert_eq!(
        pay_sale(&seller, &vault, 100, &paying("b", 99, 0)),
        Err(LedgerError::InsufficientPayment)
    );
}

#[test]
fn sale_at_no_price_transfers_nothing_of_value() {
    let seller = "s".to_string();
    let vault = "vault.near".to_string();
    assert_eq!(
        pay_sale(&seller, &vault, 0, &paying("b", 0, 0)),
        Ok(vec![to("s", 0), to("vault.near", 0)])
    );
}

#[test]
fn buy_with_less_than_the_price_is_rejected() {
    let mut market = market_with_listing(100);
    let answer = market.domain_buy(&paying("b", 99, 0), 1);
    assert_eq!(answer.unwrap_err(), LedgerError::InsufficientPayment);
    assert_eq!(market.get_market().len(), 1);
    assert!(market.get_last_sold(5).is_empty());
}

#[test]
fn buy_must_cover_the_storage_too() {
    let mut market = market_with_listing(100);
    let answer = market.domain_buy(&paying("b", 100 + STORAGE_PRICE_PER_BYTE - 1, 1), 1);
    assert_eq!(answer.unwrap_err(), LedgerError::InsufficientPayment);
    assert_eq!(market.get_market().len(), 1);
    let answer = market.domain_buy(&paying("b", 100 + STORAGE_PRICE_PER_BYTE + 9, 1), 1).unwrap();
    assert_eq!(answer.transfers, vec![to("s", 95), to("vault.near", 5), to("b", 9)]);
}

#[test]
fn buy_refunds_what_exceeds_the_price() {
    let mut market = market_with_listing(100);
    let answer = market.domain_buy(&paying("b", 250, 0), 1).unwrap();
    assert_eq!(answer.transfers, vec![to("s", 95), to("vault.near", 5), to("b", 150)]);
}

#[test]
fn buy_of_an_inactive_listing_is_rejected() {
    let mut market = market_with_listing(100);
    market.update_domain(&paying("s", 0, 0), 1, 100, false, 1).unwrap();
    let answer = market.domain_buy(&paying("b", 100, 0), 1);
    assert_eq!(answer.unwrap_err(), LedgerError::InsufficientPayment);
    assert_eq!(market.get_domain_forsale(1).len(), 1);
}

#[test]
fn update_to_premium_costs_the_deposit() {
    let mut market = market_with_listing(100);
    let answer = market.update_domain(&paying("s", DEPOSIT_PREMIUM - 1, 0), 1, 120, true, 2);
    assert_eq!(answer.unwrap_err(), LedgerError::InsufficientPayment);
    let listed = market.get_market();
    assert_eq!(listed[0].price, 100);
    assert_eq!(listed[0].post_type, 1);

    let answer = market.update_domain(&paying("s", DEPOSIT_PREMIUM + 3, 0), 1, 120, true, 2).unwrap();
    assert_eq!(answer.transfers, vec![to("vault.near", DEPOSIT_PREMIUM), to("s", 3)]);
    assert_eq!(answer.value.post_type, 2);
    assert_eq!(answer.value.price, 120);
    assert_eq!(answer.value.date_time, 42);
    let listed = market.get_market();
    assert_eq!(listed[0], answer.value);
}

#[test]
fn update_of_a_premium_listing_is_free() {
    let mut market = market_with_listing(100);
    market.update_domain(&paying("s", DEPOSIT_PREMIUM, 0), 1, 100, true, 2).unwrap();
    let again = market.update_domain(&paying("s", 0, 0), 1, 90, true, 2).unwrap();
    assert!(again.transfers.is_empty());
    assert_eq!(again.value.post_type, 2);
    let back = market.update_domain(&paying("s", 0, 0), 1, 80, false, 1).unwrap();
    assert!(back.transfers.is_empty());
    assert_eq!(back.value.post_type, 1);
    assert_eq!(back.value.price, 80);
    assert!(!back.value.is_active);
}

#[test]
fn update_within_standard_is_free() {
    let mut market = market_with_listing(100);
    let answer = market.update_domain(&paying("s", 0, 0), 1, 70, true, 1).unwrap();
    assert!(answer.transfers.is_empty());
    assert_eq!(market.get_market()[0].price, 70);
}

#[test]
fn update_is_for_the_seller_of_a_known_listing_and_a_known_kind() {
    let mut market = market_with_listing(100);
    assert_eq!(
        market.update_domain(&paying("s", 0, 0), 2, 70, true, 1).unwrap_err(),
        LedgerError::NotFound
    );
    assert_eq!(
        market.update_domain(&paying("owner.near", 0, 0), 1, 70, true, 1).unwrap_err(),
        LedgerError::PermissionDenied
    );
    assert_eq!(
        market.update_domain(&paying("s", DEPOSIT_PREMIUM, 0), 1, 70, true, 3).unwrap_err(),
        LedgerError::InvalidArgument
    );
    assert_eq!(
        market.update_domain(&paying("s", DEPOSIT_PREMIUM, 0), 1, 70, true, 0).unwrap_err(),
        LedgerError::InvalidArgument
    );
    assert_eq!(market.get_market()[0].price, 100);
}
