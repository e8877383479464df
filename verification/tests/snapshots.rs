use domain_market::contract::Contract;
use domain_market::payment::CallContext;
use domain_market::records::{DomainPublished, DomainPurchased};

fn listing(id: i128, post_type: i8) -> DomainPublished {
    DomainPublished {
        id,
        domain: format!("d{}.near", id),
        user_seller: "s".to_string(),
        price: 10,
        post_type,
        is_active: true,
        date_time: 1,
    }
}

fn purchase(id: i128, post_type: i8) -> DomainPurchased {
    DomainPurchased {
        id,
        domain: format!("d{}.near", id),
        user_seller: "s".to_string(),
        owner_id: "b".to_string(),
        purchase_price: 10,
        retired: false,
        post_type,
        date_time: 2,
    }
}

fn parts(
    id_domain: i128,
    published: Vec<DomainPublished>,
    purchased: Vec<DomainPurchased>,
    administrators: Vec<&str>,
) -> Option<Contract> {
    Contract::from_parts(
        "owner.near".to_string(),
        "vault.near".to_string(),
        id_domain,
        published,
        purchased,
        administrators.into_iter().map(|name| name.to_string()).collect(),
    )
}

#[test]
fn a_ledger_comes_back_from_its_parts() {
    let mut market =
        Contract::new("owner.near".to_string(), "vault.near".to_string(), false).unwrap();
    let by_owner = CallContext {
        signer_account_id: "owner.near".to_string(),
        predecessor_account_id: "owner.near".to_string(),
        attached_deposit: 10,
        block_timestamp: 3,
        storage_used: 0,
    };
    market.set_admin(&by_owner, "a.near".to_string()).unwrap();
    market.publish_domain(&by_owner, "x.near".to_string(), "s".to_string(), 10).unwrap();
    market.publish_domain(&by_owner, "y.near".to_string(), "s".to_string(), 10).unwrap();
    market.domain_buy(&by_owner, 1).unwrap();

    let again = Contract::from_parts(
        market.owner_id().clone(),
        market.vault_id().clone(),
        market.id_domain(),
        market.domains_published().clone(),
        market.domains_purchased().clone(),
        market.administrators().clone(),
    )
    .unwrap();
    assert_eq!(again.owner_id(), "owner.near");
    assert_eq!(again.vault_id(), "vault.near");
    assert_eq!(again.id_domain(), 2);
    assert_eq!(again.domains_published(), market.domains_published());
    assert_eq!(again.domains_purchased(), market.domains_purchased());
    assert_eq!(again.administrators(), &vec!["a.near".to_string()]);
    assert!(again.is_manager(&"a.near".to_string()));
}

#[test]
fn sound_parts_are_accepted() {
    assert!(parts(0, vec![], vec![], vec![]).is_some());
    assert!(parts(5, vec![], vec![], vec![]).is_some());
    assert!(parts(3, vec![listing(3, 1), listing(1, 2)], vec![purchase(2, 1)], vec!["a", "b"])
        .is_some());
}

#[test]
fn an_id_in_both_tables_is_refused() {
    assert!(parts(3, vec![listing(1, 1)], vec![purchase(1, 1)], vec![]).is_none());
    assert!(parts(3, vec![listing(2, 1), listing(1, 1)], vec![purchase(3, 1), purchase(1, 1)], vec![])
        .is_none());
}

#[test]
fn an_id_twice_in_a_table_is_refused() {
    assert!(parts(3, vec![listing(1, 1), listing(2, 1), listing(1, 2)], vec![], vec![]).is_none());
    assert!(parts(3, vec![], vec![purchase(2, 1), purchase(2, 1)], vec![]).is_none());
}

#[test]
fn an_id_that_was_not_handed_out_is_refused() {
    assert!(parts(3, vec![listing(4, 1)], vec![], vec![]).is_none());
    assert!(parts(3, vec![listing(0, 1)], vec![], vec![]).is_none());
    assert!(parts(3, vec![], vec![purchase(-1, 1)], vec![]).is_none());
    assert!(parts(3, vec![], vec![purchase(4, 1)], vec![]).is_none());
    assert!(parts(-1, vec![], vec![], vec![]).is_none());
}

#[test]
fn an_unknown_kind_is_refused() {
    assert!(parts(3, vec![listing(1, 3)], vec![], vec![]).is_none());
    assert!(parts(3, vec![listing(1, 0)], vec![], vec![]).is_none());
    assert!(parts(3, vec![], vec![purchase(1, -2)], vec![]).is_none());
}

#[test]
fn an_administrator_named_twice_is_refused() {
    assert!(parts(0, vec![], vec![], vec!["a", "b", "a"]).is_none());
}
