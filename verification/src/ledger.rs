//! The operations of the ledger: opening an account, moving funds, naming an
//! account and issuing access keys.

use vstd::prelude::*;
use crate::account::{fresh_account, key_views, Accesskey, AccesskeyView, Account, AccountView};
use crate::store::{
    after_put,
    aliased_account,
    getAccount,
    getByUsername,
    setAccount,
    stored_account,
    Store,
    StoreError,
    StoreState,
};

verus! {

/// The direction of a transfer.
#[derive(Debug, Clone, Copy, PartialEq, Eq, Structural)]
pub enum Mode {
    /// Funds leave the account.
    Debit,
    /// Funds reach the account.
    Credit,
}

/// Why a transfer was not carried out.
#[derive(Debug, Clone, Copy, PartialEq, Eq, Structural)]
pub enum TransferError {
    /// No readable record with an identity is stored for the account.
    AccountNotFound,
    /// The account holds less than the amount to debit.
    InsufficientBalance,
    /// The access key may debit less than the amount.
    InsufficientAllowance,
    /// The account holds no access key of that name.
    AccessKeyNotFound,
    /// The credit would take a balance or an allowance past the largest
    /// amount that can be held.
    Overflow,
    /// The changed record could not be stored.
    PersistFailed(StoreError),
}

/// `i` is the first place in `keys` at which `key` stands.
pub open spec fn is_first_match(keys: Seq<AccesskeyView>, key: Seq<char>, i: int) -> bool {
    &&& 0 <= i < keys.len()
    &&& keys[i].key == key
    &&& forall|j: int| 0 <= j < i ==> (#[trigger] keys[j]).key != key
}

/// The first place in `keys` at which `key` stands, if it stands there.
pub open spec fn key_position(keys: Seq<AccesskeyView>, key: Seq<char>) -> Option<int> {
    if exists|i: int| is_first_match(keys, key, i) {
        Some(choose|i: int| is_first_match(keys, key, i))
    } else {
        None
    }
}

/// `acc` with another balance.
pub open spec fn with_balance(acc: AccountView, balance: u64) -> AccountView {
    AccountView { balance, ..acc }
}

/// `acc` with another allowance on its access key at `i`.
pub open spec fn with_allowance(acc: AccountView, i: int, allowance: u64) -> AccountView {
    AccountView {
        access_keys: acc.access_keys.update(
            i,
            AccesskeyView { allowance, ..acc.access_keys[i] },
        ),
        ..acc
    }
}

/// What a transfer of `amount` makes of `acc`.
///
/// Without an access key the balance alone moves. With one, the allowance of
/// the first key of that name moves with the balance, by the same amount. A
/// debit needs the amount to be covered, by the allowance first and by the
/// balance then; a credit needs the sums to fit in 64 bits.
pub open spec fn delta_applied(
    acc: AccountView,
    amount: u64,
    mode: Mode,
    access_key: Seq<char>,
) -> Result<AccountView, TransferError> {
    if access_key.len() == 0 {
        match mode {
            Mode::Debit => if amount > acc.balance {
                Err(TransferError::InsufficientBalance)
            } else {
                Ok(with_balance(acc, (acc.balance - amount) as u64))
            },
            Mode::Credit => if acc.balance + amount > u64::MAX {
                Err(TransferError::Overflow)
            } else {
                Ok(with_balance(acc, (acc.balance + amount) as u64))
            },
        }
    } else {
        match key_position(acc.access_keys, access_key) {
            None => Err(TransferError::AccessKeyNotFound),
            Some(i) => {
                let allowance = acc.access_keys[i].allowance;
                match mode {
                    Mode::Debit => if amount > allowance {
                        Err(TransferError::InsufficientAllowance)
                    } else if amount > acc.balance {
                        Err(TransferError::InsufficientBalance)
                    } else {
                        Ok(
                            with_allowance(
                                with_balance(acc, (acc.balance - amount) as u64),
                                i,
                                (allowance - amount) as u64,
                            ),
                        )
                    },
                    Mode::Credit => if allowance + amount > u64::MAX || acc.balance + amount
                        > u64::MAX {
                        Err(TransferError::Overflow)
                    } else {
                        Ok(
                            with_allowance(
                                with_balance(acc, (acc.balance + amount) as u64),
                                i,
                                (allowance + amount) as u64,
                            ),
                        )
                    },
                }
            },
        }
    }
}

/// How a transfer on the account stored under `identity` ends.
pub open spec fn transfer_result(
    s: StoreState,
    identity: Seq<char>,
    amount: u64,
    mode: Mode,
    access_key: Seq<char>,
) -> Result<(), TransferError> {
    match stored_account(s, identity) {
        Err(_) => Err(TransferError::AccountNotFound),
        Ok(acc) => if acc.public_key.len() == 0 {
            Err(TransferError::AccountNotFound)
        } else {
            match delta_applied(acc, amount, mode, access_key) {
                Err(e) => Err(e),
                Ok(_) => if s.writable {
                    Ok(())
                } else {
                    Err(TransferError::PersistFailed(StoreError::IoError))
                },
            }
        },
    }
}

/// The store after a transfer on the account stored under `identity`: with
/// the changed record where the transfer succeeds, as before where it fails.
pub open spec fn after_transfer(
    s: StoreState,
    identity: Seq<char>,
    amount: u64,
    mode: Mode,
    access_key: Seq<char>,
) -> StoreState {
    if transfer_result(s, identity, amount, mode, access_key) is Ok {
        match stored_account(s, identity) {
            Ok(acc) => match delta_applied(acc, amount, mode, access_key) {
                Ok(next) => after_put(s, next),
                Err(_) => s,
            },
            Err(_) => s,
        }
    } else {
        s
    }
}

/// The account that opening `identity` hands out: the one stored under that
/// identity, else the one that the alias of that name points at, else a fresh
/// one.
pub open spec fn opened_account(s: StoreState, identity: Seq<char>) -> AccountView {
    match stored_account(s, identity) {
        Ok(acc) => acc,
        Err(_) => match aliased_account(s, identity) {
            Ok(acc) => acc,
            Err(_) => fresh_account(identity),
        },
    }
}

/// The store after `identity` has been opened: a fresh account is stored
/// where neither lookup found one and the storage root accepts the write.
pub open spec fn after_open(s: StoreState, identity: Seq<char>) -> StoreState {
    if stored_account(s, identity) is Err && aliased_account(s, identity) is Err && s.writable {
        after_put(s, fresh_account(identity))
    } else {
        s
    }
}

/// The first match is the only first match.
pub proof fn lemma_first_match_is_position(keys: Seq<AccesskeyView>, key: Seq<char>, i: int)
    requires
        is_first_match(keys, key, i),
    ensures
        key_position(keys, key) == Some(i),
{
    let j = choose|j: int| is_first_match(keys, key, j);
    assert(is_first_match(keys, key, j));
    if j < i {
        assert(keys[j].key != key);
    } else if i < j {
        assert(keys[i].key != key);
    }
}

/// Where no key of that name stands, there is no position.
pub proof fn lemma_no_match_no_position(keys: Seq<AccesskeyView>, key: Seq<char>)
    requires
        forall|j: int| 0 <= j < keys.len() ==> (#[trigger] keys[j]).key != key,
    ensures
        key_position(keys, key) is None,
{
    assert forall|i: int| !is_first_match(keys, key, i) by {
        if 0 <= i < keys.len() {
            assert(keys[i].key != key);
        }
    }
}

/// The first place in `keys` at which `key` stands.
pub fn find_access_key(keys: &Vec<Accesskey>, key: &String) -> (found: Option<usize>)
    ensures
        match found {
            Some(i) => key_position(key_views(keys@), key@) == Some(i as int),
            None => key_position(key_views(keys@), key@) is None,
        },
{
    let mut i: usize = 0;
    while i < keys.len()
        invariant
            i <= keys.len(),
            forall|j: int| 0 <= j < i ==> (#[trigger] key_views(keys@)[j]).key != key@,
        decreases keys.len() - i,
    {
        if keys[i].key == *key {
            proof {
                lemma_first_match_is_position(key_views(keys@), key@, i as int);
            }
            return Some(i);
        }
        i += 1;
    }
    proof {
        lemma_no_match_no_position(key_views(keys@), key@);
    }
    None
}

impl Account {
    /// Moves `amount` on the account, through the access key named by
    /// `access_key` or, where that is empty, on the balance alone. The
    /// account changes as [`delta_applied`] says, or not at all.
    pub fn apply_delta(&mut self, amount: u64, mode: Mode, access_key: &String) -> (r: Result<
        (),
        TransferError,
    >)
        ensures
            match delta_applied(old(self)@, amount, mode, access_key@) {
                Ok(next) => r is Ok && final(self)@ == next,
                Err(e) => r == Err::<(), TransferError>(e) && final(self)@ == old(self)@,
            },
    {
        if access_key.as_str().is_empty() {
            match mode {
                Mode::Debit => {
                    if amount > self.balance {
                        return Err(TransferError::InsufficientBalance);
                    }
                    self.balance = self.balance - amount;
                },
                Mode::Credit => {
                    if amount > u64::MAX - self.balance {
                        return Err(TransferError::Overflow);
                    }
                    self.balance = self.balance + amount;
                },
            }
            return Ok(());
        }
        let i = match find_access_key(&self.access_keys, access_key) {
            Some(i) => i,
            None => {
                return Err(TransferError::AccessKeyNotFound);
            },
        };
        let allowance = self.access_keys[i].allowance;
        let (balance, allowance): (u64, u64) = match mode {
            Mode::Debit => {
                if amount > allowance {
                    return Err(TransferError::InsufficientAllowance);
                }
                if amount > self.balance {
                    return Err(TransferError::InsufficientBalance);
                }
                (self.balance - amount, allowance - amount)
            },
            Mode::Credit => {
                if amount > u64::MAX - allowance || amount > u64::MAX - self.balance {
                    return Err(TransferError::Overflow);
                }
                (self.balance + amount, allowance + amount)
            },
        };
        let ghost before = self@;
        let updated = Accesskey {
            key: self.access_keys[i].key.clone(),
            allowance,
            code: self.access_keys[i].code.clone(),
        };
        self.access_keys.set(i, updated);
        self.balance = balance;
        assert(self@.access_keys =~= with_allowance(
            with_balance(before, balance),
            i as int,
            allowance,
        ).access_keys);
        Ok(())
    }

    /// Stores the account. Fails where the storage root refuses the write.
    pub fn save(&self, store: &mut Store) -> (r: Result<(), ()>)
        ensures
            old(store)@.writable ==> r is Ok && final(store)@ == after_put(old(store)@, self@),
            !old(store)@.writable ==> r is Err && final(store)@ == old(store)@,
            final(store)@.well_formed(),
    {
        match setAccount(store, self) {
            Ok(()) => Ok(()),
            Err(_) => Err(()),
        }
    }

    /// Gives the account the alias `user_name` and stores it. The account
    /// carries the new alias also where storing it fails.
    #[allow(non_snake_case)]
    pub fn addUsername(&mut self, store: &mut Store, user_name: String) -> (r: Result<(), ()>)
        ensures
            final(self)@ == (AccountView { username: user_name@, ..old(self)@ }),
            old(store)@.writable ==> r is Ok && final(store)@ == after_put(
                old(store)@,
                final(self)@,
            ),
            !old(store)@.writable ==> r is Err && final(store)@ == old(store)@,
            final(store)@.well_formed(),
    {
        self.username = user_name;
        self.save(store)
    }

    /// Issues the access key `pub_key` with the permission code `perm_code`
    /// and no allowance, after the keys that the account holds, and stores the
    /// account. The account holds the new key also where storing it fails.
    ///
    /// The key is appended also where the account holds one of that name
    /// already; nothing is refused. Transfers go by the first key of a name
    /// ([`key_position`]), so a second key of a name is never debited or
    /// credited. A caller that wants the names to stay distinct asks
    /// [`find_access_key`] first and issues the key only where it finds none.
    #[allow(non_snake_case)]
    pub fn addAccessCode(&mut self, store: &mut Store, perm_code: &String, pub_key: &String) -> (r:
        Result<(), ()>)
        ensures
            final(self)@ == (AccountView {
                access_keys: old(self)@.access_keys.push(
                    AccesskeyView { key: pub_key@, allowance: 0, code: perm_code@ },
                ),
                ..old(self)@
            }),
            old(store)@.writable ==> r is Ok && final(store)@ == after_put(
                old(store)@,
                final(self)@,
            ),
            !old(store)@.writable ==> r is Err && final(store)@ == old(store)@,
            final(store)@.well_formed(),
    {
        let ghost before = self@;
        let new_acc_key = Accesskey { key: pub_key.clone(), allowance: 0, code: perm_code.clone() };
        self.access_keys.push(new_acc_key);
        assert(self@.access_keys =~= before.access_keys.push(
            AccesskeyView { key: pub_key@, allowance: 0, code: perm_code@ },
        ));
        self.save(store)
    }
}

/// Whether opening `public_key` creates a record: neither the identity nor
/// the alias of that name leads to an account.
pub fn opening_creates(store: &Store, public_key: &String) -> (creates: bool)
    ensures
        creates == (stored_account(store@, public_key@) is Err && aliased_account(
            store@,
            public_key@,
        ) is Err),
        store@.well_formed(),
{
    getAccount(store, public_key).is_err() && getByUsername(store, public_key).is_err()
}

/// Hands out the account of `public_key`, creating it where there is none.
///
/// The account stored under the identity `public_key` comes first, then the
/// one that the alias `public_key` points at. Where neither is found a fresh
/// account is stored and handed out; it is handed out also where the storage
/// root refuses to store it.
pub fn open_or_create(store: &mut Store, public_key: &String) -> (acc: Account)
    ensures
        acc@ == opened_account(old(store)@, public_key@),
        final(store)@ == after_open(old(store)@, public_key@),
        final(store)@.well_formed(),
{
    if let Ok(acc) = getAccount(store, public_key) {
        return acc;
    }
    if let Ok(acc) = getByUsername(store, public_key) {
        return acc;
    }
    let acc = Account::new(public_key.clone());
    let _ = setAccount(store, &acc);
    acc
}

/// Moves `amount` on the account stored under `public_key` and stores the
/// changed record.
///
/// Fails with `AccountNotFound` where no record can be read under the
/// identity or the record names no identity, with the error of
/// [`delta_applied`] where the account cannot take the transfer, and with
/// `PersistFailed` where the changed record cannot be stored. A transfer that
/// fails leaves the store as it was.
#[allow(non_snake_case)]
pub fn deltaFunds(
    store: &mut Store,
    public_key: &String,
    amount: u64,
    mode: Mode,
    access_key: String,
) -> (r: Result<(), TransferError>)
    ensures
        r == transfer_result(old(store)@, public_key@, amount, mode, access_key@),
        final(store)@ == after_transfer(old(store)@, public_key@, amount, mode, access_key@),
        r is Err ==> final(store)@ == old(store)@,
        final(store)@.well_formed(),
{
    let mut acc = match getAccount(store, public_key) {
        Ok(acc) => acc,
        Err(_) => {
            return Err(TransferError::AccountNotFound);
        },
    };
    if acc.public_key.as_str().is_empty() {
        return Err(TransferError::AccountNotFound);
    }
    if let Err(e) = acc.apply_delta(amount, mode, &access_key) {
        return Err(e);
    }
    match setAccount(store, &acc) {
        Ok(()) => Ok(()),
        Err(e) => Err(TransferError::PersistFailed(e)),
    }
}

} // verus!
