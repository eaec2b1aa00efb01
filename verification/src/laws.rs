//! What holds of the ledger's operations on every store, stated over the
//! functions that their contracts speak of.

use vstd::prelude::*;
use crate::account::AccountView;
use crate::ledger::{
    after_open,
    after_transfer,
    delta_applied,
    key_position,
    opened_account,
    transfer_result,
    with_balance,
    Mode,
    TransferError,
};
use crate::store::{after_put, alias_entry_due, aliased_account, stored_account, StoreError, StoreState};

verus! {

/// `s` with `acc` stored under its identity and the alias index untouched.
pub open spec fn with_record(s: StoreState, acc: AccountView) -> StoreState {
    StoreState { records: s.records.insert(acc.public_key, Some(acc)), ..s }
}

/// Storing an account under the alias that its stored record carries writes
/// no index entry.
pub proof fn lemma_same_alias_keeps_index(s: StoreState, identity: Seq<char>, next: AccountView)
    requires
        s.well_formed(),
        stored_account(s, identity) is Ok,
        next.public_key == stored_account(s, identity)->Ok_0.public_key,
        next.username == stored_account(s, identity)->Ok_0.username,
    ensures
        next.public_key == identity,
        after_put(s, next) == with_record(s, next),
        stored_account(after_put(s, next), identity) == Ok::<AccountView, StoreError>(next),
{
    assert(s.records.contains_key(identity));
}

/// A debit without an access key, on an account that is stored under a
/// non-empty identity: an amount that the balance covers is taken from the
/// balance and nothing else changes, provided that the storage root accepts
/// the write; an amount above the balance is refused with
/// `InsufficientBalance`. Whatever is refused leaves the store as it was.
pub proof fn law_direct_debit(s: StoreState, identity: Seq<char>, amount: u64)
    requires
        s.well_formed(),
        stored_account(s, identity) is Ok,
        identity.len() > 0,
    ensures
        ({
            let acc = stored_account(s, identity)->Ok_0;
            let result = transfer_result(s, identity, amount, Mode::Debit, Seq::empty());
            let after = after_transfer(s, identity, amount, Mode::Debit, Seq::empty());
            &&& amount <= acc.balance && s.writable ==> {
                &&& result is Ok
                &&& stored_account(after, identity) == Ok::<AccountView, StoreError>(
                    with_balance(acc, (acc.balance - amount) as u64),
                )
                &&& after == with_record(s, with_balance(acc, (acc.balance - amount) as u64))
            }
            &&& amount <= acc.balance && !s.writable ==> {
                &&& result == Err::<(), TransferError>(
                    TransferError::PersistFailed(StoreError::IoError),
                )
                &&& after == s
            }
            &&& amount > acc.balance ==> {
                &&& result == Err::<(), TransferError>(TransferError::InsufficientBalance)
                &&& after == s
            }
        }),
{
    let acc = stored_account(s, identity)->Ok_0;
    assert(s.records.contains_key(identity));
    if amount <= acc.balance {
        lemma_same_alias_keeps_index(
            s,
            identity,
            with_balance(acc, (acc.balance - amount) as u64),
        );
    }
}

/// A credit without an access key, on an account that is stored under a
/// non-empty identity: an amount that the balance can take is added to the
/// balance and nothing else changes, provided that the storage root accepts
/// the write; an amount that would take the balance past 64 bits is refused
/// with `Overflow`. Whatever is refused leaves the store as it was.
pub proof fn law_direct_credit(s: StoreState, identity: Seq<char>, amount: u64)
    requires
        s.well_formed(),
        stored_account(s, identity) is Ok,
        identity.len() > 0,
    ensures
        ({
            let acc = stored_account(s, identity)->Ok_0;
            let result = transfer_result(s, identity, amount, Mode::Credit, Seq::empty());
            let after = after_transfer(s, identity, amount, Mode::Credit, Seq::empty());
            &&& acc.balance + amount <= u64::MAX && s.writable ==> {
                &&& result is Ok
                &&& stored_account(after, identity) == Ok::<AccountView, StoreError>(
                    with_balance(acc, (acc.balance + amount) as u64),
                )
                &&& after == with_record(s, with_balance(acc, (acc.balance + amount) as u64))
            }
            &&& acc.balance + amount <= u64::MAX && !s.writable ==> {
                &&& result == Err::<(), TransferError>(
                    TransferError::PersistFailed(StoreError::IoError),
                )
                &&& after == s
            }
            &&& acc.balance + amount > u64::MAX ==> {
                &&& result == Err::<(), TransferError>(TransferError::Overflow)
                &&& after == s
            }
        }),
{
    let acc = stored_account(s, identity)->Ok_0;
    assert(s.records.contains_key(identity));
    if acc.balance + amount <= u64::MAX {
        lemma_same_alias_keeps_index(
            s,
            identity,
            with_balance(acc, (acc.balance + amount) as u64),
        );
    }
}

/// A debit through an access key either takes the amount from the balance
/// and from the allowance of the first key of that name, both at once and
/// with nothing else changed on the account, or it fails and leaves the store
/// as it was. It succeeds exactly where the account is stored under a
/// non-empty identity, holds the key, the allowance and the balance cover the
/// amount, and the storage root accepts the write.
pub proof fn law_delegated_debit(
    s: StoreState,
    identity: Seq<char>,
    amount: u64,
    access_key: Seq<char>,
)
    requires
        s.well_formed(),
        access_key.len() > 0,
    ensures
        ({
            let result = transfer_result(s, identity, amount, Mode::Debit, access_key);
            let after = after_transfer(s, identity, amount, Mode::Debit, access_key);
            &&& result is Err ==> after == s
            &&& result is Ok <==> {
                &&& stored_account(s, identity) is Ok
                &&& identity.len() > 0
                &&& key_position(stored_account(s, identity)->Ok_0.access_keys, access_key) is Some
                &&& amount <= stored_account(s, identity)->Ok_0.access_keys[key_position(
                    stored_account(s, identity)->Ok_0.access_keys,
                    access_key,
                )->Some_0].allowance
                &&& amount <= stored_account(s, identity)->Ok_0.balance
                &&& s.writable
            }
            &&& result is Ok ==> {
                let acc = stored_account(s, identity)->Ok_0;
                let i = key_position(acc.access_keys, access_key)->Some_0;
                let next = stored_account(after, identity)->Ok_0;
                &&& stored_account(after, identity) is Ok
                &&& next.balance == acc.balance - amount
                &&& next.access_keys.len() == acc.access_keys.len()
                &&& next.access_keys[i].allowance == acc.access_keys[i].allowance - amount
                &&& next.access_keys[i].key == access_key
                &&& next.access_keys[i].code == acc.access_keys[i].code
                &&& forall|j: int|
                    0 <= j < acc.access_keys.len() && j != i ==> next.access_keys[j]
                        == acc.access_keys[j]
                &&& next.public_key == acc.public_key
                &&& next.username == acc.username
                &&& next.locked == acc.locked
                &&& next.level == acc.level
                &&& after == with_record(s, next)
            }
        }),
{
    let result = transfer_result(s, identity, amount, Mode::Debit, access_key);
    if stored_account(s, identity) is Ok {
        let acc = stored_account(s, identity)->Ok_0;
        assert(s.records.contains_key(identity));
        if result is Ok {
            let next = delta_applied(acc, amount, Mode::Debit, access_key)->Ok_0;
            let i = key_position(acc.access_keys, access_key)->Some_0;
            lemma_same_alias_keeps_index(s, identity, next);
        }
    }
}

/// Storing an account keeps every readable record under its own identity,
/// and so do a transfer and the opening of an identity.
pub proof fn law_operations_keep_well_formed(
    s: StoreState,
    acc: AccountView,
    identity: Seq<char>,
    amount: u64,
    mode: Mode,
    access_key: Seq<char>,
)
    requires
        s.well_formed(),
    ensures
        after_put(s, acc).well_formed(),
        after_open(s, identity).well_formed(),
        after_transfer(s, identity, amount, mode, access_key).well_formed(),
{
    if transfer_result(s, identity, amount, mode, access_key) is Ok {
        assert(s.records.contains_key(identity));
    }
}

/// Opening an identity twice hands out the same account both times, and the
/// second opening changes nothing in the store.
pub proof fn law_open_is_idempotent(s: StoreState, identity: Seq<char>)
    ensures
        opened_account(after_open(s, identity), identity) == opened_account(s, identity),
        after_open(after_open(s, identity), identity) == after_open(s, identity),
{
}

/// An account that has been stored is found again under its identity, equal
/// in every field. Storing succeeds exactly where the storage root accepts
/// writes.
pub proof fn law_put_then_get(s: StoreState, acc: AccountView)
    requires
        s.writable,
    ensures
        stored_account(after_put(s, acc), acc.public_key) == Ok::<AccountView, StoreError>(acc),
{
}

/// A lookup by alias hands out only what the records say: the account
/// carries the alias, is stored under its own identity, and is the one that
/// the index entry of the alias points at.
pub proof fn law_alias_lookup_follows_records(s: StoreState, alias: Seq<char>)
    requires
        s.well_formed(),
        aliased_account(s, alias) is Ok,
    ensures
        aliased_account(s, alias)->Ok_0.username == alias,
        s.aliases.contains_key(alias),
        aliased_account(s, alias)->Ok_0.public_key == s.aliases[alias],
        stored_account(s, s.aliases[alias]) == aliased_account(s, alias),
{
    assert(s.records.contains_key(s.aliases[alias]));
}

/// An alias that an account has given up no longer leads to it: once the
/// account is stored under another alias, a lookup by the former one finds
/// nothing through an index entry that points at the account.
pub proof fn law_former_alias_finds_nothing(s: StoreState, acc: AccountView, former: Seq<char>)
    requires
        s.writable,
        acc.username != former,
        after_put(s, acc).aliases.contains_key(former) ==> after_put(s, acc).aliases[former]
            == acc.public_key,
    ensures
        aliased_account(after_put(s, acc), former) == Err::<AccountView, StoreError>(
            StoreError::NotFound,
        ),
{
}

/// After an account has been stored under a new alias, the alias leads to
/// that account, where storing it wrote the index entry (the record stored
/// before carries another, non-empty alias) or the index already pointed from
/// the alias to the account's identity.
pub proof fn law_alias_resolves(s: StoreState, acc: AccountView, alias: Seq<char>)
    requires
        s.writable,
        alias_entry_due(s, AccountView { username: alias, ..acc }) || (s.aliases.contains_key(alias)
            && s.aliases[alias] == acc.public_key),
    ensures
        aliased_account(after_put(s, AccountView { username: alias, ..acc }), alias) == Ok::<
            AccountView,
            StoreError,
        >(AccountView { username: alias, ..acc }),
        aliased_account(
            after_put(s, AccountView { username: alias, ..acc }),
            alias,
        )->Ok_0.public_key == acc.public_key,
{
}

} // verus!
