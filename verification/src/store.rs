//! The account store: one record per identity, and an index from aliases to
//! identities that is kept beside the records.
//!
//! The store stands for a storage root with its two directories. A backend
//! that keeps the records in files mirrors them into a [`Store`] with the
//! `restore_*` functions and writes back what the operations leave in it.

use vstd::prelude::*;
use crate::account::{Account, AccountView};
use crate::table::Table;

verus! {

/// Why a store operation did not succeed.
#[derive(Debug, Clone, Copy, PartialEq, Eq, Structural)]
pub enum StoreError {
    /// No record, or no index entry, is stored under the name asked for.
    NotFound,
    /// A record is stored under the identity but cannot be decoded.
    CorruptRecord,
    /// The storage root refused a write.
    IoError,
}

/// The mathematical value of a [`Store`].
pub struct StoreState {
    /// What is stored under each identity: `Some` account, or `None` where
    /// the stored record cannot be decoded.
    pub records: Map<Seq<char>, Option<AccountView>>,
    /// The alias index: the identity that each indexed alias points at.
    pub aliases: Map<Seq<char>, Seq<char>>,
    /// Whether the storage root accepts writes.
    pub writable: bool,
}

impl StoreState {
    /// Every readable record is stored under its own identity.
    pub open spec fn well_formed(self) -> bool {
        forall|k: Seq<char>| #[trigger]
            self.records.contains_key(k) ==> match self.records[k] {
                Some(acc) => acc.public_key == k,
                None => true,
            }
    }
}

/// What a lookup by identity finds.
pub open spec fn stored_account(s: StoreState, identity: Seq<char>) -> Result<
    AccountView,
    StoreError,
> {
    if !s.records.contains_key(identity) {
        Err(StoreError::NotFound)
    } else {
        match s.records[identity] {
            Some(acc) => Ok(acc),
            None => Err(StoreError::CorruptRecord),
        }
    }
}

/// What a lookup by alias finds: the account that the index entry points at,
/// where there is an entry, its account can be read, and the account carries
/// the alias. The record decides: an entry that points at a missing or
/// unreadable record, or at an account that carries another alias by now,
/// finds nothing.
pub open spec fn aliased_account(s: StoreState, alias: Seq<char>) -> Result<
    AccountView,
    StoreError,
> {
    if !s.aliases.contains_key(alias) {
        Err(StoreError::NotFound)
    } else {
        match stored_account(s, s.aliases[alias]) {
            Ok(acc) => if acc.username == alias {
                Ok(acc)
            } else {
                Err(StoreError::NotFound)
            },
            Err(_) => Err(StoreError::NotFound),
        }
    }
}

/// What is kept under `identity` for a record file that decoded to
/// `decoded`: the account, where the file could be decoded and the account
/// names the identity under which it was found; else an unreadable record.
pub open spec fn record_found(identity: Seq<char>, decoded: Option<AccountView>) -> Option<
    AccountView,
> {
    match decoded {
        Some(acc) => if acc.public_key == identity {
            Some(acc)
        } else {
            None
        },
        None => None,
    }
}

/// Whether storing `acc` also writes an index entry for its alias: the
/// record stored before it can be read, carries an alias, and carries
/// another one than `acc` does.
pub open spec fn alias_entry_due(s: StoreState, acc: AccountView) -> bool {
    match stored_account(s, acc.public_key) {
        Ok(prev) => prev.username != acc.username && prev.username.len() > 0,
        Err(_) => false,
    }
}

/// The store after `acc` has been stored in it.
pub open spec fn after_put(s: StoreState, acc: AccountView) -> StoreState {
    StoreState {
        records: s.records.insert(acc.public_key, Some(acc)),
        aliases: if alias_entry_due(s, acc) {
            s.aliases.insert(acc.username, acc.public_key)
        } else {
            s.aliases
        },
        writable: s.writable,
    }
}

/// The values of the stored records, one for one.
spec fn record_views(records: Map<Seq<char>, Option<Account>>) -> Map<
    Seq<char>,
    Option<AccountView>,
> {
    records.map_values(
        |r: Option<Account>|
            match r {
                Some(acc) => Some(acc@),
                None => None,
            },
    )
}

/// The values of the index entries, one for one.
spec fn alias_views(aliases: Map<Seq<char>, String>) -> Map<Seq<char>, Seq<char>> {
    aliases.map_values(|identity: String| identity@)
}

/// The accounts of a ledger with their alias index.
pub struct Store {
    records: Table<Option<Account>>,
    aliases: Table<String>,
    writable: bool,
}

impl View for Store {
    type V = StoreState;

    closed spec fn view(&self) -> StoreState {
        StoreState {
            records: record_views(self.records@),
            aliases: alias_views(self.aliases@),
            writable: self.writable,
        }
    }
}

impl Store {
    #[verifier::type_invariant]
    spec fn keyed_by_identity(&self) -> bool {
        self@.well_formed()
    }

    /// A store that holds nothing and accepts writes.
    pub fn new() -> (store: Store)
        ensures
            store@.records == Map::<Seq<char>, Option<AccountView>>::empty(),
            store@.aliases == Map::<Seq<char>, Seq<char>>::empty(),
            store@.writable,
            store@.well_formed(),
    {
        let store = Store { records: Table::new(), aliases: Table::new(), writable: true };
        store
    }

    /// Whether the storage root accepts writes.
    pub fn is_writable(&self) -> (writable: bool)
        ensures
            writable == self@.writable,
            self@.well_formed(),
    {
        proof {
            use_type_invariant(self);
        }
        self.writable
    }

    /// Says whether the storage root accepts writes from now on.
    pub fn set_writable(&mut self, writable: bool)
        ensures
            final(self)@ == (StoreState { writable, ..old(self)@ }),
            final(self)@.well_formed(),
    {
        proof {
            use_type_invariant(&*self);
        }
        self.writable = writable;
    }

    /// Puts `acc` under its identity as the record that the storage root
    /// holds, whether or not the root accepts writes. The alias index stays as
    /// it is.
    pub fn restore_record(&mut self, acc: Account)
        ensures
            final(self)@ == (StoreState {
                records: old(self)@.records.insert(acc@.public_key, Some(acc@)),
                ..old(self)@
            }),
            final(self)@.well_formed(),
    {
        let key = acc.public_key.clone();
        self.replace_record(key, Some(acc));
    }

    /// Marks the record under `identity` as one that the storage root holds
    /// but that cannot be decoded.
    pub fn restore_unreadable(&mut self, identity: String)
        ensures
            final(self)@ == (StoreState {
                records: old(self)@.records.insert(identity@, None),
                ..old(self)@
            }),
            final(self)@.well_formed(),
    {
        self.replace_record(identity, None);
    }

    /// Puts under `identity` what the record file of that identity held:
    /// `decoded` is the account that it decoded to, or `None` where it could
    /// not be decoded. An account that names another identity than the one
    /// under which it was found is kept as an unreadable record.
    pub fn restore_decoded(&mut self, identity: String, decoded: Option<Account>)
        ensures
            final(self)@ == (StoreState {
                records: old(self)@.records.insert(
                    identity@,
                    record_found(
                        identity@,
                        match decoded {
                            Some(acc) => Some(acc@),
                            None => None,
                        },
                    ),
                ),
                ..old(self)@
            }),
            final(self)@.well_formed(),
    {
        match decoded {
            Some(acc) => {
                if acc.public_key == identity {
                    self.replace_record(identity, Some(acc));
                } else {
                    self.replace_record(identity, None);
                }
            },
            None => {
                self.replace_record(identity, None);
            },
        }
    }

    /// Puts the index entry from `alias` to `identity` as one that the
    /// storage root holds, whether or not the root accepts writes.
    pub fn restore_alias(&mut self, alias: String, identity: String)
        ensures
            final(self)@ == (StoreState {
                aliases: old(self)@.aliases.insert(alias@, identity@),
                ..old(self)@
            }),
            final(self)@.well_formed(),
    {
        self.replace_alias(alias, identity);
    }

    /// The identity that the index entry of `alias` points at.
    pub fn alias_target(&self, alias: &String) -> (target: Option<String>)
        ensures
            match target {
                Some(identity) => self@.aliases.contains_key(alias@) && identity@
                    == self@.aliases[alias@],
                None => !self@.aliases.contains_key(alias@),
            },
    {
        match self.aliases.get(alias) {
            Some(identity) => Some(identity.clone()),
            None => None,
        }
    }

    /// Stores `record` under `key`. The table is taken out of the store while
    /// it changes and put back whole.
    fn replace_record(&mut self, key: String, record: Option<Account>)
        requires
            match record {
                Some(acc) => acc@.public_key == key@,
                None => true,
            },
        ensures
            final(self)@ == (StoreState {
                records: old(self)@.records.insert(
                    key@,
                    match record {
                        Some(acc) => Some(acc@),
                        None => None,
                    },
                ),
                ..old(self)@
            }),
            final(self)@.well_formed(),
    {
        proof {
            use_type_invariant(&*self);
        }
        let ghost before = self.records@;
        let mut records: Table<Option<Account>> = Table::new();
        core::mem::swap(&mut self.records, &mut records);
        records.insert(key, record);
        proof {
            assert(record_views(records@) =~= record_views(before).insert(
                key@,
                match record {
                    Some(acc) => Some(acc@),
                    None => None,
                },
            ));
        }
        self.records = records;
    }

    /// Stores the index entry from `alias` to `identity`.
    fn replace_alias(&mut self, alias: String, identity: String)
        ensures
            final(self)@ == (StoreState {
                aliases: old(self)@.aliases.insert(alias@, identity@),
                ..old(self)@
            }),
            final(self)@.well_formed(),
    {
        proof {
            use_type_invariant(&*self);
        }
        let ghost before = self.aliases@;
        let mut aliases: Table<String> = Table::new();
        core::mem::swap(&mut self.aliases, &mut aliases);
        aliases.insert(alias, identity);
        proof {
            assert(alias_views(aliases@) =~= alias_views(before).insert(alias@, identity@));
        }
        self.aliases = aliases;
    }
}

/// Looks an account up by its identity.
///
/// Fails with `NotFound` where nothing is stored under `public_key`, and with
/// `CorruptRecord` where what is stored there cannot be decoded.
#[allow(non_snake_case)]
pub fn getAccount(store: &Store, public_key: &String) -> (r: Result<Account, StoreError>)
    ensures
        match r {
            Ok(acc) => stored_account(store@, public_key@) == Ok::<AccountView, StoreError>(acc@),
            Err(e) => stored_account(store@, public_key@) == Err::<AccountView, StoreError>(e),
        },
        store@.well_formed(),
{
    proof {
        use_type_invariant(store);
    }
    match store.records.get(public_key) {
        Some(Some(acc)) => Ok(acc.clone()),
        Some(None) => Err(StoreError::CorruptRecord),
        None => Err(StoreError::NotFound),
    }
}

/// Looks an account up by its alias.
///
/// Fails with `NotFound` where the index has no entry for `username`, where
/// the entry points at an identity whose record is missing or cannot be
/// decoded, and where the record that it points at carries another alias:
/// the record is what counts, and an entry that has gone stale is not
/// trusted.
#[allow(non_snake_case)]
pub fn getByUsername(store: &Store, username: &String) -> (r: Result<Account, StoreError>)
    ensures
        match r {
            Ok(acc) => aliased_account(store@, username@) == Ok::<AccountView, StoreError>(acc@),
            Err(e) => aliased_account(store@, username@) == Err::<AccountView, StoreError>(e),
        },
        r is Ok ==> r->Ok_0@.username == username@,
        store@.well_formed(),
{
    proof {
        use_type_invariant(store);
    }
    match store.aliases.get(username) {
        Some(identity) => match getAccount(store, identity) {
            Ok(acc) => if acc.username == *username {
                Ok(acc)
            } else {
                Err(StoreError::NotFound)
            },
            Err(_) => Err(StoreError::NotFound),
        },
        None => Err(StoreError::NotFound),
    }
}

/// Stores `acc` under its identity.
///
/// Where the record stored before it can be read and carries an alias other
/// than that of `acc`, the index entry of the new alias is first made to
/// point at the identity. A storage root that refuses writes fails the call
/// with `IoError` and keeps everything as it was.
///
/// Nothing here keeps an alias to one account. The call is not refused where
/// another account carries the alias of `acc`: an index entry of that alias
/// that points at the other account is pointed at `acc` instead, and the
/// other account keeps the alias in its record but is no longer found by it.
/// Where no entry is due, both records carry the alias and the index stays
/// with the account it named. A caller that wants an alias to name one
/// account asks [`getByUsername`] first and stores only where it finds
/// nothing, or the account itself. The entry of the alias that `acc` carried
/// before is left in place; where it points at `acc` it is stale from then
/// on and finds nothing.
#[allow(non_snake_case)]
pub fn setAccount(store: &mut Store, acc: &Account) -> (r: Result<(), StoreError>)
    ensures
        old(store)@.writable ==> r is Ok && final(store)@ == after_put(old(store)@, acc@),
        !old(store)@.writable ==> r == Err::<(), StoreError>(StoreError::IoError) && final(store)@
            == old(store)@,
        final(store)@.well_formed(),
{
    proof {
        use_type_invariant(&*store);
    }
    if !store.writable {
        return Err(StoreError::IoError);
    }
    let due = match store.records.get(&acc.public_key) {
        Some(Some(prev)) => !(prev.username == acc.username) && !prev.username.as_str().is_empty(),
        _ => false,
    };
    if due {
        store.replace_alias(acc.username.clone(), acc.public_key.clone());
    }
    store.replace_record(acc.public_key.clone(), Some(acc.clone()));
    Ok(())
}

} // verus!
