use account_ledger::account::{Accesskey, Account};
use account_ledger::ledger::{find_access_key, open_or_create, opening_creates};
use account_ledger::store::{getAccount, getByUsername, setAccount, Store, StoreError};
use account_ledger::table::Table;

fn word(value: &str) -> String {
    value.to_string()
}

fn named(identity: &str, alias: &str, balance: u64) -> Account {
    Account {
        public_key: word(identity),
        username: word(alias),
        balance,
        locked: 2,
        level: 1,
        access_keys: vec![
            Accesskey { key: word(""), allowance: 0, code: word("") },
            Accesskey { key: word("k"), allowance: 11, code: word("rw") },
        ],
    }
}

#[test]
fn new_store_is_empty_and_writable() {
    let store = Store::new();
    assert!(store.is_writable());
    assert_eq!(getAccount(&store, &word("a")), Err(StoreError::NotFound));
    assert_eq!(getByUsername(&store, &word("a")), Err(StoreError::NotFound));
    assert_eq!(store.alias_target(&word("a")), None);
}

#[test]
fn stored_account_is_found_again_equal_in_every_field() {
    let mut store = Store::new();
    let acc = named("pk", "alice", 42);
    assert_eq!(setAccount(&mut store, &acc), Ok(()));
    let got = getAccount(&store, &word("pk")).unwrap();
    assert_eq!(got.public_key, "pk");
    assert_eq!(got.username, "alice");
    assert_eq!(got.balance, 42);
    assert_eq!(got.locked, 2);
    assert_eq!(got.level, 1);
    assert_eq!(got.access_keys, acc.access_keys);
    assert_eq!(got, acc);
}

#[test]
fn storing_again_replaces_the_record() {
    let mut store = Store::new();
    assert_eq!(setAccount(&mut store, &named("pk", "", 1)), Ok(()));
    assert_eq!(setAccount(&mut store, &named("other", "", 5)), Ok(()));
    assert_eq!(setAccount(&mut store, &named("pk", "", 2)), Ok(()));
    assert_eq!(getAccount(&store, &word("pk")), Ok(named("pk", "", 2)));
    assert_eq!(getAccount(&store, &word("other")), Ok(named("other", "", 5)));
}

#[test]
fn store_that_refuses_writes_fails_with_io_error_and_keeps_its_state() {
    let mut store = Store::new();
    assert_eq!(setAccount(&mut store, &named("pk", "alice", 1)), Ok(()));
    store.set_writable(false);
    assert!(!store.is_writable());
    assert_eq!(setAccount(&mut store, &named("pk", "bob", 9)), Err(StoreError::IoError));
    assert_eq!(setAccount(&mut store, &named("new", "", 9)), Err(StoreError::IoError));
    assert_eq!(getAccount(&store, &word("pk")), Ok(named("pk", "alice", 1)));
    assert_eq!(getAccount(&store, &word("new")), Err(StoreError::NotFound));
    assert_eq!(store.alias_target(&word("bob")), None);
    assert_eq!(named("pk", "bob", 9).save(&mut store), Err(()));
}

#[test]
fn unreadable_record_is_corrupt_not_missing() {
    let mut store = Store::new();
    store.restore_unreadable(word("pk"));
    assert_eq!(getAccount(&store, &word("pk")), Err(StoreError::CorruptRecord));
    assert_eq!(getAccount(&store, &word("px")), Err(StoreError::NotFound));
}

#[test]
fn storing_over_an_unreadable_record_mends_it_and_writes_no_index_entry() {
    let mut store = Store::new();
    store.restore_unreadable(word("pk"));
    assert_eq!(setAccount(&mut store, &named("pk", "alice", 3)), Ok(()));
    assert_eq!(getAccount(&store, &word("pk")), Ok(named("pk", "alice", 3)));
    assert_eq!(store.alias_target(&word("alice")), None);
}

#[test]
fn first_store_of_an_account_writes_no_index_entry() {
    let mut store = Store::new();
    assert_eq!(setAccount(&mut store, &named("pk", "alice", 3)), Ok(()));
    assert_eq!(store.alias_target(&word("alice")), None);
    assert_eq!(getByUsername(&store, &word("alice")), Err(StoreError::NotFound));
}

#[test]
fn changing_a_non_empty_alias_writes_the_index_entry_of_the_new_one() {
    let mut store = Store::new();
    store.restore_record(named("pk", "alice", 3));
    store.restore_alias(word("alice"), word("pk"));
    assert_eq!(setAccount(&mut store, &named("pk", "bob", 4)), Ok(()));
    assert_eq!(store.alias_target(&word("bob")), Some(word("pk")));
    assert_eq!(getByUsername(&store, &word("bob")), Ok(named("pk", "bob", 4)));
    assert_eq!(store.alias_target(&word("alice")), Some(word("pk")));
    assert_eq!(getByUsername(&store, &word("alice")), Err(StoreError::NotFound));
}

#[test]
fn unchanged_alias_writes_no_index_entry() {
    let mut store = Store::new();
    store.restore_record(named("pk", "alice", 3));
    assert_eq!(setAccount(&mut store, &named("pk", "alice", 4)), Ok(()));
    assert_eq!(store.alias_target(&word("alice")), None);
}

#[test]
fn alias_given_to_an_account_without_one_is_not_indexed() {
    let mut store = Store::new();
    let mut acc = open_or_create(&mut store, &word("pk"));
    assert_eq!(acc.addUsername(&mut store, word("alice")), Ok(()));
    assert_eq!(acc.username, "alice");
    assert_eq!(getAccount(&store, &word("pk")).unwrap().username, "alice");
    assert_eq!(store.alias_target(&word("alice")), None);
    assert_eq!(getByUsername(&store, &word("alice")), Err(StoreError::NotFound));
}

#[test]
fn alias_that_replaces_another_resolves_to_the_account() {
    let mut store = Store::new();
    store.restore_record(named("pk", "al", 3));
    let mut acc = getAccount(&store, &word("pk")).unwrap();
    assert_eq!(acc.addUsername(&mut store, word("alice")), Ok(()));
    let got = getByUsername(&store, &word("alice")).unwrap();
    assert_eq!(got.public_key, acc.public_key);
    assert_eq!(got, named("pk", "alice", 3));
}

#[test]
fn new_index_entry_takes_the_place_of_an_older_one() {
    let mut store = Store::new();
    store.restore_record(named("one", "x", 1));
    store.restore_record(named("two", "y", 2));
    store.restore_alias(word("alice"), word("one"));
    assert_eq!(setAccount(&mut store, &named("two", "alice", 2)), Ok(()));
    assert_eq!(store.alias_target(&word("alice")), Some(word("two")));
    assert_eq!(getByUsername(&store, &word("alice")), Ok(named("two", "alice", 2)));
}

#[test]
fn dangling_index_entry_is_not_found() {
    let mut store = Store::new();
    store.restore_alias(word("alice"), word("gone"));
    assert_eq!(store.alias_target(&word("alice")), Some(word("gone")));
    assert_eq!(getByUsername(&store, &word("alice")), Err(StoreError::NotFound));
}

#[test]
fn index_entry_that_points_at_an_unreadable_record_is_not_found() {
    let mut store = Store::new();
    store.restore_unreadable(word("pk"));
    store.restore_alias(word("alice"), word("pk"));
    assert_eq!(getByUsername(&store, &word("alice")), Err(StoreError::NotFound));
}

#[test]
fn opening_twice_gives_equal_accounts_and_one_record() {
    let mut store = Store::new();
    let first = open_or_create(&mut store, &word("pk"));
    let second = open_or_create(&mut store, &word("pk"));
    assert_eq!(first, second);
    assert_eq!(getAccount(&store, &word("pk")), Ok(first));
    assert_eq!(store.alias_target(&word("pk")), None);
}

#[test]
fn opening_prefers_the_identity_over_the_alias() {
    let mut store = Store::new();
    store.restore_record(named("pk", "", 1));
    store.restore_record(named("other", "pk", 2));
    store.restore_alias(word("pk"), word("other"));
    assert_eq!(open_or_create(&mut store, &word("pk")), named("pk", "", 1));
}

#[test]
fn opening_by_alias_hands_out_the_aliased_account_and_creates_none() {
    let mut store = Store::new();
    store.restore_record(named("pk", "alice", 8));
    store.restore_alias(word("alice"), word("pk"));
    assert_eq!(open_or_create(&mut store, &word("alice")), named("pk", "alice", 8));
    assert_eq!(getAccount(&store, &word("alice")), Err(StoreError::NotFound));
}

#[test]
fn opening_over_an_unreadable_record_stores_a_fresh_one() {
    let mut store = Store::new();
    store.restore_unreadable(word("pk"));
    let acc = open_or_create(&mut store, &word("pk"));
    assert_eq!(acc, Account::new(word("pk")));
    assert_eq!(getAccount(&store, &word("pk")), Ok(acc));
}

#[test]
fn opening_on_a_store_that_refuses_writes_still_hands_out_the_fresh_account() {
    let mut store = Store::new();
    store.set_writable(false);
    let acc = open_or_create(&mut store, &word("pk"));
    assert_eq!(acc, Account::new(word("pk")));
    assert_eq!(getAccount(&store, &word("pk")), Err(StoreError::NotFound));
    let again = open_or_create(&mut store, &word("pk"));
    assert_eq!(again, acc);
}

#[test]
fn issued_key_has_no_allowance_and_comes_last() {
    let mut store = Store::new();
    let mut acc = open_or_create(&mut store, &word("pk"));
    assert_eq!(acc.addAccessCode(&mut store, &word("rw"), &word("k1")), Ok(()));
    assert_eq!(acc.addAccessCode(&mut store, &word("r"), &word("k2")), Ok(()));
    let expected = vec![
        Accesskey { key: word(""), allowance: 0, code: word("") },
        Accesskey { key: word("k1"), allowance: 0, code: word("rw") },
        Accesskey { key: word("k2"), allowance: 0, code: word("r") },
    ];
    assert_eq!(acc.access_keys, expected);
    assert_eq!(getAccount(&store, &word("pk")).unwrap().access_keys, expected);
}

#[test]
fn issuing_a_key_on_a_store_that_refuses_writes_fails() {
    let mut store = Store::new();
    let mut acc = open_or_create(&mut store, &word("pk"));
    store.set_writable(false);
    assert_eq!(acc.addAccessCode(&mut store, &word("rw"), &word("k1")), Err(()));
    assert_eq!(acc.addUsername(&mut store, word("alice")), Err(()));
    assert_eq!(acc.access_keys.len(), 2);
    assert_eq!(acc.username, "alice");
    assert_eq!(getAccount(&store, &word("pk")), Ok(Account::new(word("pk"))));
}

#[test]
fn save_stores_the_account() {
    let mut store = Store::new();
    let acc = named("pk", "", 77);
    assert_eq!(acc.save(&mut store), Ok(()));
    assert_eq!(getAccount(&store, &word("pk")), Ok(acc));
}

#[test]
fn table_keeps_the_last_value_of_each_key() {
    let mut table: Table<u64> = Table::new();
    assert_eq!(table.get(&word("a")), None);
    table.insert(word("a"), 1);
    table.insert(word("b"), 2);
    table.insert(word(""), 3);
    assert_eq!(table.get(&word("a")), Some(&1));
    table.insert(word("a"), 4);
    assert_eq!(table.get(&word("a")), Some(&4));
    assert_eq!(table.get(&word("b")), Some(&2));
    assert_eq!(table.get(&word("")), Some(&3));
    assert_eq!(table.get(&word("c")), None);
}

#[test]
fn alias_that_an_account_gave_up_finds_nothing() {
    let mut store = Store::new();
    assert_eq!(setAccount(&mut store, &named("pk", "al", 3)), Ok(()));
    let mut acc = getAccount(&store, &word("pk")).unwrap();
    assert_eq!(acc.addUsername(&mut store, word("alice")), Ok(()));
    assert_eq!(getByUsername(&store, &word("alice")), Ok(named("pk", "alice", 3)));
    assert_eq!(acc.addUsername(&mut store, word("bob")), Ok(()));
    assert_eq!(store.alias_target(&word("alice")), Some(word("pk")));
    assert_eq!(getByUsername(&store, &word("alice")), Err(StoreError::NotFound));
    assert_eq!(getByUsername(&store, &word("bob")), Ok(named("pk", "bob", 3)));
    assert_eq!(getByUsername(&store, &word("al")), Err(StoreError::NotFound));
}

#[test]
fn index_entry_whose_record_carries_another_alias_is_not_trusted() {
    let mut store = Store::new();
    store.restore_record(named("pk", "bob", 3));
    store.restore_alias(word("alice"), word("pk"));
    assert_eq!(getByUsername(&store, &word("alice")), Err(StoreError::NotFound));
    store.restore_alias(word("bob"), word("pk"));
    assert_eq!(getByUsername(&store, &word("bob")), Ok(named("pk", "bob", 3)));
}

#[test]
fn opening_a_former_alias_creates_an_account_of_that_name() {
    let mut store = Store::new();
    store.restore_record(named("pk", "bob", 3));
    store.restore_alias(word("alice"), word("pk"));
    assert!(opening_creates(&store, &word("alice")));
    let acc = open_or_create(&mut store, &word("alice"));
    assert_eq!(acc, Account::new(word("alice")));
    assert_eq!(getAccount(&store, &word("alice")), Ok(Account::new(word("alice"))));
    assert_eq!(getAccount(&store, &word("pk")), Ok(named("pk", "bob", 3)));
    assert!(!opening_creates(&store, &word("alice")));
}

#[test]
fn opening_creates_only_where_neither_lookup_finds_an_account() {
    let mut store = Store::new();
    assert!(opening_creates(&store, &word("pk")));
    store.restore_unreadable(word("pk"));
    assert!(opening_creates(&store, &word("pk")));
    store.restore_record(named("pk", "alice", 1));
    assert!(!opening_creates(&store, &word("pk")));
    assert!(opening_creates(&store, &word("alice")));
    store.restore_alias(word("alice"), word("pk"));
    assert!(!opening_creates(&store, &word("alice")));
    store.restore_alias(word("carol"), word("gone"));
    assert!(opening_creates(&store, &word("carol")));
    store.set_writable(false);
    assert!(opening_creates(&store, &word("carol")));
}

#[test]
fn decoded_record_is_kept_where_it_names_the_identity_it_was_found_under() {
    let mut store = Store::new();
    store.restore_decoded(word("pk"), Some(named("pk", "alice", 5)));
    assert_eq!(getAccount(&store, &word("pk")), Ok(named("pk", "alice", 5)));
    assert_eq!(store.alias_target(&word("alice")), None);
}

#[test]
fn decoded_record_that_names_another_identity_is_unreadable() {
    let mut store = Store::new();
    store.restore_decoded(word("pk"), Some(named("other", "", 5)));
    assert_eq!(getAccount(&store, &word("pk")), Err(StoreError::CorruptRecord));
    assert_eq!(getAccount(&store, &word("other")), Err(StoreError::NotFound));
    store.restore_decoded(word("px"), Some(named("", "", 5)));
    assert_eq!(getAccount(&store, &word("px")), Err(StoreError::CorruptRecord));
    store.restore_decoded(word(""), Some(named("", "", 6)));
    assert_eq!(getAccount(&store, &word("")), Ok(named("", "", 6)));
}

#[test]
fn record_that_could_not_be_decoded_is_unreadable() {
    let mut store = Store::new();
    store.restore_record(named("pk", "", 5));
    store.restore_decoded(word("pk"), None);
    assert_eq!(getAccount(&store, &word("pk")), Err(StoreError::CorruptRecord));
}

#[test]
fn alias_that_another_account_carries_is_taken_over_in_the_index() {
    let mut store = Store::new();
    store.restore_record(named("one", "alice", 1));
    store.restore_alias(word("alice"), word("one"));
    store.restore_record(named("two", "y", 2));
    assert_eq!(getByUsername(&store, &word("alice")), Ok(named("one", "alice", 1)));
    assert_eq!(setAccount(&mut store, &named("two", "alice", 2)), Ok(()));
    assert_eq!(store.alias_target(&word("alice")), Some(word("two")));
    assert_eq!(getByUsername(&store, &word("alice")), Ok(named("two", "alice", 2)));
    assert_eq!(getAccount(&store, &word("one")), Ok(named("one", "alice", 1)));
}

#[test]
fn alias_stored_without_an_index_entry_leaves_the_index_with_its_account() {
    let mut store = Store::new();
    store.restore_record(named("one", "alice", 1));
    store.restore_alias(word("alice"), word("one"));
    assert_eq!(setAccount(&mut store, &named("two", "alice", 2)), Ok(()));
    assert_eq!(getByUsername(&store, &word("alice")), Ok(named("one", "alice", 1)));
    assert_eq!(getAccount(&store, &word("two")), Ok(named("two", "alice", 2)));
}

#[test]
fn key_of_a_name_already_held_is_appended_and_never_reached() {
    let mut store = Store::new();
    let mut acc = open_or_create(&mut store, &word("pk"));
    assert_eq!(acc.addAccessCode(&mut store, &word("rw"), &word("k1")), Ok(()));
    assert_eq!(find_access_key(&acc.access_keys, &word("k1")), Some(1));
    assert_eq!(acc.addAccessCode(&mut store, &word("r"), &word("k1")), Ok(()));
    assert_eq!(acc.access_keys.len(), 3);
    assert_eq!(acc.access_keys[2], Accesskey { key: word("k1"), allowance: 0, code: word("r") });
    assert_eq!(find_access_key(&acc.access_keys, &word("k1")), Some(1));
    assert_eq!(getAccount(&store, &word("pk")), Ok(acc));
}
