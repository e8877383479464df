use domain_market::contract::Contract;
use domain_market::payment::CallContext;
use domain_market::records::LedgerError;

fn by(signer: &str) -> CallContext {
    CallContext {
        signer_account_id: signer.to_string(),
        predecessor_account_id: signer.to_string(),
        attached_deposit: 0,
        block_timestamp: 0,
        storage_used: 0,
    }
}

fn fresh() -> Contract {
    Contract::new("owner.near".to_string(), "vault.near".to_string(), false).unwrap()
}

#[test]
fn the_owner_is_a_manager_from_the_start() {
    let market = fresh();
    assert!(market.is_manager(&"owner.near".to_string()));
    assert!(!market.is_manager(&"vault.near".to_string()));
    assert!(market.administrators().is_empty());
}

#[test]
fn set_admin_twice_is_rejected() {
    let mut market = fresh();
    assert_eq!(market.set_admin(&by("owner.near"), "a.near".to_string()), Ok(()));
    assert_eq!(
        market.set_admin(&by("owner.near"), "a.near".to_string()),
        Err(LedgerError::AlreadyExists)
    );
    assert_eq!(
        market.set_admin(&by("a.near"), "a.near".to_string()),
        Err(LedgerError::AlreadyExists)
    );
    assert_eq!(market.administrators(), &vec!["a.near".to_string()]);
}

#[test]
fn set_admin_by_a_stranger_is_denied() {
    let mut market = fresh();
    assert_eq!(
        market.set_admin(&by("b"), "b".to_string()),
        Err(LedgerError::PermissionDenied)
    );
    assert!(!market.is_manager(&"b".to_string()));
}

#[test]
fn an_administrator_may_publish_and_name_others() {
    let mut market = fresh();
    market.set_admin(&by("owner.near"), "a.near".to_string()).unwrap();
    assert_eq!(market.set_admin(&by("a.near"), "c.near".to_string()), Ok(()));
    assert!(market.is_manager(&"c.near".to_string()));
    let published =
        market.publish_domain(&by("c.near"), "x.near".to_string(), "s".to_string(), 1).unwrap();
    assert_eq!(published.value.id, 1);
}

#[test]
fn delete_admin_of_a_stranger_is_rejected() {
    let mut market = fresh();
    assert_eq!(
        market.delete_admin(&by("owner.near"), "a.near".to_string()),
        Err(LedgerError::NotFound)
    );
    assert_eq!(
        market.delete_admin(&by("b"), "a.near".to_string()),
        Err(LedgerError::PermissionDenied)
    );
}

#[test]
fn delete_admin_takes_the_rights_away() {
    let mut market = fresh();
    market.set_admin(&by("owner.near"), "a.near".to_string()).unwrap();
    market.set_admin(&by("owner.near"), "c.near".to_string()).unwrap();
    assert_eq!(market.delete_admin(&by("c.near"), "a.near".to_string()), Ok(()));
    assert!(!market.is_manager(&"a.near".to_string()));
    assert!(market.is_manager(&"c.near".to_string()));
    assert_eq!(
        market.publish_domain(&by("a.near"), "x.near".to_string(), "s".to_string(), 1).unwrap_err(),
        LedgerError::PermissionDenied
    );
    assert_eq!(
        market.delete_admin(&by("owner.near"), "a.near".to_string()),
        Err(LedgerError::NotFound)
    );
    assert_eq!(market.set_admin(&by("owner.near"), "a.near".to_string()), Ok(()));
}
