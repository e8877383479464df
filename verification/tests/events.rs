use domain_market::contract::Contract;
use domain_market::event::{Event, ParamValue};
use domain_market::payment::{CallContext, DEPOSIT_PREMIUM};
use domain_market::text::{decimal_text, signed_decimal_text};

fn at(signer: &str, attached_deposit: u128, block_timestamp: u64) -> CallContext {
    CallContext {
        signer_account_id: signer.to_string(),
        predecessor_account_id: signer.to_string(),
        attached_deposit,
        block_timestamp,
        storage_used: 0,
    }
}

fn text(value: &str) -> ParamValue {
    ParamValue::Text(value.to_string())
}

fn expect(event: &Event, event_type: &str, params: Vec<(&str, ParamValue)>) {
    assert_eq!(event.event_type, event_type);
    assert_eq!(event.params.len(), params.len());
    for (param, (name, value)) in event.params.iter().zip(params) {
        assert_eq!(param.name, name);
        assert_eq!(param.value, value);
    }
}

fn published() -> Contract {
    let mut market =
        Contract::new("owner.near".to_string(), "vault.near".to_string(), false).unwrap();
    market
        .publish_domain(&at("owner.near", 0, 1650000000123), "x.near".to_string(), "s".to_string(), 100)
        .unwrap();
    market
}

#[test]
fn decimal_text_writes_digits() {
    assert_eq!(decimal_text(0), "0");
    assert_eq!(decimal_text(7), "7");
    assert_eq!(decimal_text(10), "10");
    assert_eq!(decimal_text(1234567890), "1234567890");
    assert_eq!(decimal_text(1_000_000_000_000_000_000_000_000), "1000000000000000000000000");
    assert_eq!(decimal_text(u128::MAX), "340282366920938463463374607431768211455");
}

#[test]
fn signed_decimal_text_writes_the_sign() {
    assert_eq!(signed_decimal_text(0), "0");
    assert_eq!(signed_decimal_text(1), "1");
    assert_eq!(signed_decimal_text(-1), "-1");
    assert_eq!(signed_decimal_text(-128), "-128");
    assert_eq!(signed_decimal_text(i128::MAX), "170141183460469231731687303715884105727");
    assert_eq!(signed_decimal_text(i128::MIN), "-170141183460469231731687303715884105728");
}

#[test]
fn decimal_text_agrees_with_the_standard_library() {
    let mut n: u128 = 1;
    for _ in 0..80 {
        assert_eq!(decimal_text(n), n.to_string());
        assert_eq!(signed_decimal_text(-((n >> 1) as i128)), (-((n >> 1) as i128)).to_string());
        n = n.wrapping_mul(7).wrapping_add(3);
    }
}

#[test]
fn publish_logs_the_new_listing() {
    let mut market =
        Contract::new("owner.near".to_string(), "vault.near".to_string(), false).unwrap();
    let outcome = market
        .publish_domain(&at("owner.near", 0, 1650000000123), "x.near".to_string(), "s".to_string(), 100)
        .unwrap();
    expect(
        &outcome.event,
        "publish_domain",
        vec![
            ("id", text("1")),
            ("domain", text("x.near")),
            ("user_seller", text("s")),
            ("price", text("100")),
            ("post_type", ParamValue::Number(1)),
            ("is_active", ParamValue::Flag(true)),
            ("date_time", text("1650000000123")),
        ],
    );
}

#[test]
fn buy_logs_the_purchase() {
    let mut market = published();
    let outcome = market.domain_buy(&at("b", 100, 1650000000999), 1).unwrap();
    expect(
        &outcome.event,
        "domain_buy",
        vec![
            ("id", text("1")),
            ("domain", text("x.near")),
            ("user_seller", text("s")),
            ("owner_id", text("b")),
            ("purchase_price", text("100")),
            ("post_type", text("1")),
            ("retired", ParamValue::Flag(false)),
            ("date_time", text("1650000000999")),
        ],
    );
}

#[test]
fn resell_logs_the_new_listing() {
    let mut market = published();
    market.domain_buy(&at("b", 100, 5), 1).unwrap();
    let outcome = market.resell_domain(&at("b", DEPOSIT_PREMIUM, 77), 1, 50, 2).unwrap();
    expect(
        &outcome.event,
        "resell_domain",
        vec![
            ("id", text("1")),
            ("domain", text("x.near")),
            ("user_seller", text("b")),
            ("price", text("50")),
            ("post_type", text("2")),
            ("is_active", ParamValue::Flag(true)),
            ("date_time", text("77")),
        ],
    );
}

#[test]
fn update_logs_the_changed_listing_with_its_old_time() {
    let mut market = published();
    let outcome = market.update_domain(&at("s", 0, 99), 1, 250, false, 1).unwrap();
    expect(
        &outcome.event,
        "update_domain",
        vec![
            ("id", text("1")),
            ("domain", text("x.near")),
            ("user_seller", text("s")),
            ("price", text("250")),
            ("post_type", text("1")),
            ("is_active", ParamValue::Flag(false)),
            ("date_time", text("1650000000123")),
        ],
    );
}

#[test]
fn retire_logs_the_owner_and_the_time() {
    let mut market = published();
    market.domain_buy(&at("b", 100, 5), 1).unwrap();
    let outcome = market.retired_domain(&at("b", 0, 88), 1).unwrap();
    expect(
        &outcome.event,
        "retired_domain",
        vec![
            ("id", text("1")),
            ("owner_id", text("b")),
            ("retired", ParamValue::Flag(true)),
            ("date_time", text("88")),
        ],
    );
    assert_eq!(outcome.value.date_time, 5);
    assert!(outcome.value.retired);
}

#[test]
fn cancel_logs_the_seller_and_the_time() {
    let mut market = published();
    let outcome = market.cancel_domain(&at("s", 0, 66), 1).unwrap();
    expect(
        &outcome.event,
        "cancel_domain",
        vec![("id", text("1")), ("user_seller", text("s")), ("date_time", text("66"))],
    );
}
