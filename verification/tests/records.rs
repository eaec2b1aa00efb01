use account_ledger::account::{Accesskey, Account};
use account_ledger::layout::{account_path, alias_path, decimal_scale, MAX_DECIMAL_PLACES};

#[test]
fn new_account_holds_the_default_key_alone() {
    let acc = Account::new("pk1".to_string());
    assert_eq!(acc.public_key, "pk1");
    assert_eq!(acc.username, "");
    assert_eq!(acc.balance, 0);
    assert_eq!(acc.locked, 0);
    assert_eq!(acc.level, 0);
    assert_eq!(acc.access_keys.len(), 1);
    assert_eq!(acc.access_keys[0].key, "");
    assert_eq!(acc.access_keys[0].allowance, 0);
    assert_eq!(acc.access_keys[0].code, "");
}

#[test]
fn default_account_is_blank() {
    let acc = Account::default();
    assert_eq!(acc.public_key, "");
    assert_eq!(acc.username, "");
    assert_eq!(acc.balance, 0);
    assert_eq!(acc.locked, 0);
    assert_eq!(acc.level, 0);
    assert!(acc.access_keys.is_empty());
    assert_ne!(acc, Account::new(String::new()));
    assert_eq!(Accesskey::default(), Accesskey { key: String::new(), allowance: 0, code: String::new() });
}

#[test]
fn clone_is_equal_in_every_field() {
    let mut acc = Account::new("pk".to_string());
    acc.username = "alice".to_string();
    acc.balance = 5;
    acc.locked = 6;
    acc.level = 7;
    acc.access_keys.push(Accesskey { key: "k".to_string(), allowance: 8, code: "c".to_string() });
    let copy = acc.clone();
    assert_eq!(copy, acc);
    assert_eq!(copy.access_keys[1].clone(), acc.access_keys[1]);
}

#[test]
fn accounts_differ_where_one_field_differs() {
    let base = Account::new("pk".to_string());
    let mut other = base.clone();
    other.public_key = "pl".to_string();
    assert_ne!(other, base);
    let mut other = base.clone();
    other.username = "u".to_string();
    assert_ne!(other, base);
    let mut other = base.clone();
    other.balance = 1;
    assert_ne!(other, base);
    let mut other = base.clone();
    other.locked = 1;
    assert_ne!(other, base);
    let mut other = base.clone();
    other.level = 1;
    assert_ne!(other, base);
    let mut other = base.clone();
    other.access_keys[0].allowance = 1;
    assert_ne!(other, base);
    let mut other = base.clone();
    other.access_keys[0].key = "k".to_string();
    assert_ne!(other, base);
    let mut other = base.clone();
    other.access_keys[0].code = "c".to_string();
    assert_ne!(other, base);
    let mut other = base.clone();
    other.access_keys.push(Accesskey::default());
    assert_ne!(other, base);
}

#[test]
fn decimal_scale_is_a_power_of_ten() {
    assert_eq!(decimal_scale(0), Some(1));
    assert_eq!(decimal_scale(1), Some(10));
    assert_eq!(decimal_scale(4), Some(10_000));
    assert_eq!(decimal_scale(18), Some(1_000_000_000_000_000_000));
    assert_eq!(MAX_DECIMAL_PLACES, 18);
}

#[test]
fn decimal_scale_beyond_eighteen_places_is_refused() {
    assert_eq!(decimal_scale(19), None);
    assert_eq!(decimal_scale(255), None);
}

#[test]
fn paths_follow_the_layout_of_the_storage_root() {
    assert_eq!(account_path("/var/db", "pk1"), "/var/db/accounts/pk1.account");
    assert_eq!(alias_path("/var/db", "9f86d0"), "/var/db/usernames/9f86d0.uname");
    assert_eq!(account_path("", ""), "/accounts/.account");
    assert_eq!(alias_path("root", ""), "root/usernames/.uname");
}
