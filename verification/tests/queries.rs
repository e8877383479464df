use domain_market::contract::Contract;
use domain_market::order::rank_descending;
use domain_market::payment::{CallContext, DEPOSIT_PREMIUM};
use domain_market::records::{DomainPublished, DomainPurchased, LedgerError};

fn at(signer: &str, attached_deposit: u128, block_timestamp: u64) -> CallContext {
    CallContext {
        signer_account_id: signer.to_string(),
        predecessor_account_id: signer.to_string(),
        attached_deposit,
        block_timestamp,
        storage_used: 0,
    }
}

fn ids_of_published(rows: &[DomainPublished]) -> Vec<i128> {
    rows.iter().map(|row| row.id).collect()
}

fn ids_of_purchased(rows: &[DomainPurchased]) -> Vec<i128> {
    rows.iter().map(|row| row.id).collect()
}

/// Seven listings of the sellers s and t, with prices 30, 10, 30, 20, 50, 10, 40.
fn stocked() -> Contract {
    let mut market =
        Contract::new("owner.near".to_string(), "vault.near".to_string(), false).unwrap();
    let prices: [u128; 7] = [30, 10, 30, 20, 50, 10, 40];
    for (i, price) in prices.iter().enumerate() {
        let seller = if i % 2 == 0 { "s" } else { "t" };
        market
            .publish_domain(
                &at("owner.near", 0, 100 + i as u64),
                format!("d{}.near", i + 1),
                seller.to_string(),
                *price,
            )
            .unwrap();
    }
    market
}

/// Of the seven listings, 5, 1, 4 and 2 were bought, in this order, by b, c, b and c.
fn traded() -> Contract {
    let mut market = stocked();
    market.domain_buy(&at("b", 50, 200), 5).unwrap();
    market.domain_buy(&at("c", 30, 201), 1).unwrap();
    market.domain_buy(&at("b", 20, 202), 4).unwrap();
    market.domain_buy(&at("c", 10, 203), 2).unwrap();
    market
}

#[test]
fn rank_puts_larger_keys_first_and_keeps_ties_in_order() {
    assert_eq!(rank_descending(&vec![30, 10, 30, 20, 50, 10, 40]), vec![4, 6, 0, 2, 3, 1, 5]);
    assert_eq!(rank_descending(&vec![]), Vec::<usize>::new());
    assert_eq!(rank_descending(&vec![7]), vec![0]);
    assert_eq!(rank_descending(&vec![1, 1, 1]), vec![0, 1, 2]);
    assert_eq!(rank_descending(&vec![1, 2, 3]), vec![2, 1, 0]);
    assert_eq!(rank_descending(&vec![u128::MAX, 0, u128::MAX]), vec![0, 2, 1]);
}

#[test]
fn listings_of_a_seller_come_in_table_order() {
    let rows = stocked().get_domains_published(Some("s".to_string())).unwrap();
    assert_eq!(ids_of_published(&rows), vec![1, 3, 5, 7]);
    let rows = stocked().get_domains_published(Some("t".to_string())).unwrap();
    assert_eq!(ids_of_published(&rows), vec![2, 4, 6]);
    let rows = stocked().get_domains_published(Some("nobody".to_string())).unwrap();
    assert!(rows.is_empty());
}

#[test]
fn listings_without_a_seller_are_not_answered() {
    assert_eq!(stocked().get_domains_published(None).unwrap_err(), LedgerError::InvalidArgument);
}

#[test]
fn top_published_defaults_to_five() {
    let rows = stocked().get_top_published(None);
    assert_eq!(ids_of_published(&rows), vec![5, 7, 1, 3, 4]);
    assert_eq!(rows[0].price, 50);
    assert_eq!(rows[0].domain, "d5.near");
}

#[test]
fn top_published_takes_as_many_as_asked() {
    let market = stocked();
    assert_eq!(ids_of_published(&market.get_top_published(Some(0))), Vec::<i128>::new());
    assert_eq!(ids_of_published(&market.get_top_published(Some(1))), vec![5]);
    assert_eq!(ids_of_published(&market.get_top_published(Some(3))), vec![5, 7, 1]);
    assert_eq!(ids_of_published(&market.get_top_published(Some(7))), vec![5, 7, 1, 3, 4, 2, 6]);
    assert_eq!(ids_of_published(&market.get_top_published(Some(100))), vec![5, 7, 1, 3, 4, 2, 6]);
    assert_eq!(
        ids_of_published(&market.get_top_published(Some(i32::MAX))),
        vec![5, 7, 1, 3, 4, 2, 6]
    );
}

#[test]
fn top_published_with_a_negative_limit_takes_all() {
    let market = stocked();
    assert_eq!(ids_of_published(&market.get_top_published(Some(-1))), vec![5, 7, 1, 3, 4, 2, 6]);
    assert_eq!(
        ids_of_published(&market.get_top_published(Some(i32::MIN))),
        vec![5, 7, 1, 3, 4, 2, 6]
    );
}

#[test]
fn top_published_leaves_inactive_listings_out() {
    let mut market = stocked();
    market.update_domain(&at("s", 0, 300), 5, 50, false, 1).unwrap();
    assert_eq!(ids_of_published(&market.get_top_published(Some(3))), vec![7, 1, 3]);
}

#[test]
fn top_purchased_ranks_by_the_price_paid() {
    let market = traded();
    assert_eq!(ids_of_purchased(&market.get_top_purchased(None)), vec![5, 1, 4, 2]);
    assert_eq!(ids_of_purchased(&market.get_top_purchased(Some(2))), vec![5, 1]);
    assert_eq!(ids_of_purchased(&market.get_top_purchased(Some(-3))), vec![5, 1, 4, 2]);
    assert_eq!(market.get_top_purchased(Some(1))[0].purchase_price, 50);
}

#[test]
fn top_purchased_keeps_equal_prices_in_table_order() {
    let mut market = stocked();
    market.domain_buy(&at("b", 10, 200), 6).unwrap();
    market.domain_buy(&at("b", 30, 201), 3).unwrap();
    market.domain_buy(&at("b", 10, 202), 2).unwrap();
    market.domain_buy(&at("b", 30, 203), 1).unwrap();
    assert_eq!(ids_of_purchased(&market.get_top_purchased(None)), vec![3, 1, 6, 2]);
}

#[test]
fn last_sold_is_the_end_of_the_table() {
    let market = traded();
    assert_eq!(ids_of_purchased(&market.get_last_sold(2)), vec![4, 2]);
    assert_eq!(ids_of_purchased(&market.get_last_sold(1)), vec![2]);
    assert_eq!(ids_of_purchased(&market.get_last_sold(3)), vec![1, 4, 2]);
    assert_eq!(ids_of_purchased(&market.get_last_sold(4)), vec![5, 1, 4, 2]);
    assert_eq!(ids_of_purchased(&market.get_last_sold(5)), vec![5, 1, 4, 2]);
    assert_eq!(ids_of_purchased(&market.get_last_sold(i128::MAX)), vec![5, 1, 4, 2]);
}

#[test]
fn last_sold_of_none_or_less_is_empty() {
    let market = traded();
    assert!(market.get_last_sold(0).is_empty());
    assert!(market.get_last_sold(-1).is_empty());
    assert!(market.get_last_sold(i128::MIN).is_empty());
    assert!(stocked().get_last_sold(0).is_empty());
    assert!(stocked().get_last_sold(3).is_empty());
}

#[test]
fn last_sold_keeps_the_order_of_purchase_after_a_resale() {
    let mut market = traded();
    market.resell_domain(&at("c", 0, 300), 1, 5, 1).unwrap();
    assert_eq!(ids_of_purchased(&market.get_last_sold(10)), vec![5, 4, 2]);
    market.domain_buy(&at("b", 5, 301), 1).unwrap();
    assert_eq!(ids_of_purchased(&market.get_last_sold(10)), vec![5, 4, 2, 1]);
    assert_eq!(ids_of_purchased(&market.get_last_sold(2)), vec![2, 1]);
}

#[test]
fn purchases_are_filtered_by_owner_and_seller() {
    assert_eq!(
        ids_of_purchased(&traded().get_domains_purchased(Some("b".to_string()), None)),
        vec![5, 4]
    );
    assert_eq!(
        ids_of_purchased(&traded().get_domains_purchased(Some("c".to_string()), None)),
        vec![1, 2]
    );
    assert_eq!(
        ids_of_purchased(&traded().get_domains_purchased(None, Some("s".to_string()))),
        vec![5, 1]
    );
    assert_eq!(
        ids_of_purchased(&traded().get_domains_purchased(None, Some("t".to_string()))),
        vec![4, 2]
    );
    assert_eq!(
        ids_of_purchased(
            &traded().get_domains_purchased(Some("b".to_string()), Some("s".to_string()))
        ),
        vec![5]
    );
    assert_eq!(
        ids_of_purchased(
            &traded().get_domains_purchased(Some("c".to_string()), Some("t".to_string()))
        ),
        vec![2]
    );
}

#[test]
fn purchases_must_pass_both_filters() {
    let rows = traded().get_domains_purchased(Some("nobody".to_string()), Some("s".to_string()));
    assert!(rows.is_empty());
    let rows = traded().get_domains_purchased(Some("b".to_string()), Some("nobody".to_string()));
    assert!(rows.is_empty());
}

#[test]
fn purchases_without_a_filter_are_none() {
    assert!(traded().get_domains_purchased(None, None).is_empty());
}

#[test]
fn rows_are_found_by_id_in_their_table() {
    let forsale = traded().get_domain_forsale(3);
    assert_eq!(forsale.len(), 1);
    assert_eq!(forsale[0].domain, "d3.near");
    assert_eq!(forsale[0].date_time, 102);
    assert!(traded().get_domain_forsale(5).is_empty());
    assert!(traded().get_domain_forsale(8).is_empty());

    let bought = traded().get_domain_id(5);
    assert_eq!(bought.len(), 1);
    assert_eq!(bought[0].owner_id, "b");
    assert_eq!(bought[0].user_seller, "s");
    assert_eq!(bought[0].date_time, 200);
    assert!(traded().get_domain_id(3).is_empty());
    assert!(traded().get_domain_id(0).is_empty());
}

#[test]
fn the_market_shows_premium_listings_first() {
    let mut market = stocked();
    market.update_domain(&at("t", DEPOSIT_PREMIUM, 300), 4, 20, true, 2).unwrap();
    market.update_domain(&at("s", DEPOSIT_PREMIUM, 301), 7, 40, true, 2).unwrap();
    market.update_domain(&at("t", 0, 302), 2, 10, false, 1).unwrap();
    let rows = market.get_market();
    assert_eq!(ids_of_published(&rows), vec![4, 7, 1, 3, 5, 6]);
    assert_eq!(rows[0].post_type, 2);
    assert_eq!(rows[1].post_type, 2);
    assert_eq!(rows[2].post_type, 1);
}

#[test]
fn the_market_of_standard_listings_is_in_table_order() {
    assert_eq!(ids_of_published(&stocked().get_market()), vec![1, 2, 3, 4, 5, 6, 7]);
    assert_eq!(ids_of_published(&traded().get_market()), vec![3, 6, 7]);
}
