//! The account record and its delegated access keys.

use vstd::prelude::*;
use vstd::std_specs::cmp::PartialEqSpecImpl;

verus! {

/// A delegated, amount-limited spending capability attached to an account.
#[derive(Debug)]
pub struct Accesskey {
    /// Identifier of the key within its account.
    pub key: String,
    /// Atomic units that the key may still debit.
    pub allowance: u64,
    /// Permission descriptor, interpreted by the callers' policy only.
    pub code: String,
}

/// The mathematical value of an [`Accesskey`].
pub struct AccesskeyView {
    pub key: Seq<char>,
    pub allowance: u64,
    pub code: Seq<char>,
}

/// One record of the ledger: an identity with its balance, its alias and the
/// access keys that may spend on its behalf.
#[derive(Debug)]
pub struct Account {
    /// The identity, which is also the key under which the record is stored.
    pub public_key: String,
    /// The alias, or the empty string where the account has none.
    pub username: String,
    /// Spendable atomic units.
    pub balance: u64,
    /// Atomic units held back; kept as found.
    pub locked: u64,
    /// Permission tier; kept as found.
    pub level: u8,
    /// The access keys in the order of their issue; the first is the default
    /// key with the empty identifier, which stands for no delegation.
    pub access_keys: Vec<Accesskey>,
}

/// The mathematical value of an [`Account`].
pub struct AccountView {
    pub public_key: Seq<char>,
    pub username: Seq<char>,
    pub balance: u64,
    pub locked: u64,
    pub level: u8,
    pub access_keys: Seq<AccesskeyView>,
}

/// The key that every new account starts with: no identifier, no allowance,
/// no permission code.
pub open spec fn default_key() -> AccesskeyView {
    AccesskeyView { key: Seq::empty(), allowance: 0, code: Seq::empty() }
}

/// The account that is created for `identity` on first access.
pub open spec fn fresh_account(identity: Seq<char>) -> AccountView {
    AccountView {
        public_key: identity,
        username: Seq::empty(),
        balance: 0,
        locked: 0,
        level: 0,
        access_keys: seq![default_key()],
    }
}

/// The account in which every field is empty or zero.
pub open spec fn blank_account() -> AccountView {
    AccountView {
        public_key: Seq::empty(),
        username: Seq::empty(),
        balance: 0,
        locked: 0,
        level: 0,
        access_keys: Seq::empty(),
    }
}

/// The values of a sequence of access keys, one for one.
pub open spec fn key_views(keys: Seq<Accesskey>) -> Seq<AccesskeyView> {
    Seq::new(keys.len(), |i: int| keys[i]@)
}

impl View for Accesskey {
    type V = AccesskeyView;

    open spec fn view(&self) -> AccesskeyView {
        AccesskeyView { key: self.key@, allowance: self.allowance, code: self.code@ }
    }
}

impl View for Account {
    type V = AccountView;

    open spec fn view(&self) -> AccountView {
        AccountView {
            public_key: self.public_key@,
            username: self.username@,
            balance: self.balance,
            locked: self.locked,
            level: self.level,
            access_keys: key_views(self.access_keys@),
        }
    }
}

impl Clone for Accesskey {
    fn clone(&self) -> (res: Self)
        ensures
            res@ == self@,
    {
        Accesskey { key: self.key.clone(), allowance: self.allowance, code: self.code.clone() }
    }
}

impl Default for Accesskey {
    fn default() -> (res: Self)
        ensures
            res@ == default_key(),
    {
        Accesskey { key: String::new(), allowance: 0, code: String::new() }
    }
}

impl PartialEq for Accesskey {
    fn eq(&self, other: &Self) -> (r: bool) {
        self.key == other.key && self.allowance == other.allowance && self.code == other.code
    }
}

impl PartialEqSpecImpl for Accesskey {
    open spec fn obeys_eq_spec() -> bool {
        true
    }

    open spec fn eq_spec(&self, other: &Self) -> bool {
        self@ == other@
    }
}

/// Copies a vector of access keys, one for one.
fn clone_keys(keys: &Vec<Accesskey>) -> (res: Vec<Accesskey>)
    ensures
        key_views(res@) == key_views(keys@),
{
    let mut res: Vec<Accesskey> = Vec::new();
    let mut i: usize = 0;
    while i < keys.len()
        invariant
            i <= keys.len(),
            res.len() == i,
            forall|j: int| 0 <= j < i ==> res@[j]@ == keys@[j]@,
        decreases keys.len() - i,
    {
        res.push(keys[i].clone());
        i += 1;
    }
    assert(key_views(res@) =~= key_views(keys@));
    res
}

/// Whether two vectors hold equal access keys in the same order.
fn keys_equal(left: &Vec<Accesskey>, right: &Vec<Accesskey>) -> (r: bool)
    ensures
        r == (key_views(left@) == key_views(right@)),
{
    if left.len() != right.len() {
        assert(key_views(left@).len() != key_views(right@).len());
        return false;
    }
    let mut i: usize = 0;
    while i < left.len()
        invariant
            i <= left.len(),
            left.len() == right.len(),
            forall|j: int| 0 <= j < i ==> left@[j]@ == right@[j]@,
        decreases left.len() - i,
    {
        if !(left[i] == right[i]) {
            assert(key_views(left@)[i as int] != key_views(right@)[i as int]);
            return false;
        }
        i += 1;
    }
    assert(key_views(left@) =~= key_views(right@));
    true
}

impl Clone for Account {
    fn clone(&self) -> (res: Self)
        ensures
            res@ == self@,
    {
        Account {
            public_key: self.public_key.clone(),
            username: self.username.clone(),
            balance: self.balance,
            locked: self.locked,
            level: self.level,
            access_keys: clone_keys(&self.access_keys),
        }
    }
}

impl Default for Account {
    fn default() -> (res: Self)
        ensures
            res@ == blank_account(),
    {
        let res = Account {
            public_key: String::new(),
            username: String::new(),
            balance: 0,
            locked: 0,
            level: 0,
            access_keys: Vec::new(),
        };
        assert(res@.access_keys =~= Seq::empty());
        res
    }
}

impl PartialEq for Account {
    fn eq(&self, other: &Self) -> (r: bool) {
        self.public_key == other.public_key && self.username == other.username && self.balance
            == other.balance && self.locked == other.locked && self.level == other.level
            && keys_equal(&self.access_keys, &other.access_keys)
    }
}

impl PartialEqSpecImpl for Account {
    open spec fn obeys_eq_spec() -> bool {
        true
    }

    open spec fn eq_spec(&self, other: &Self) -> bool {
        self@ == other@
    }
}

impl Account {
    /// The account that `public_key` gets on first access: nothing on it, no
    /// alias, and the default access key alone.
    pub fn new(public_key: String) -> (acc: Account)
        ensures
            acc@ == fresh_account(public_key@),
    {
        let mut access_keys: Vec<Accesskey> = Vec::new();
        access_keys.push(Accesskey::default());
        let acc = Account {
            public_key,
            username: String::new(),
            balance: 0,
            locked: 0,
            level: 0,
            access_keys,
        };
        assert(acc@.access_keys =~= seq![default_key()]);
        acc
    }
}

} // verus!
