//! Where a storage root keeps its files, and the scale between atomic units
//! and display amounts.

use vstd::prelude::*;
use vstd::string::StringExecFns;

verus! {

/// The largest number of decimal places whose scale is offered.
pub const MAX_DECIMAL_PLACES: u8 = 18;

/// Ten to the power of `n`.
pub open spec fn pow10(n: nat) -> nat
    decreases n,
{
    if n == 0 {
        1
    } else {
        10 * pow10((n - 1) as nat)
    }
}

/// The path of the record of `identity` below `root`.
pub open spec fn account_path_of(root: Seq<char>, identity: Seq<char>) -> Seq<char> {
    root + "/accounts/"@ + identity + ".account"@
}

/// The path of the index entry whose alias has the digest `digest`, below
/// `root`.
pub open spec fn alias_path_of(root: Seq<char>, digest: Seq<char>) -> Seq<char> {
    root + "/usernames/"@ + digest + ".uname"@
}

/// Up to the eighteenth, the powers of ten fit in 64 bits.
proof fn lemma_pow10_bounds(n: nat)
    requires
        n <= 18,
    ensures
        1 <= pow10(n) <= 1_000_000_000_000_000_000,
{
    assert(pow10(18) == 1_000_000_000_000_000_000) by {
        reveal_with_fuel(pow10, 19);
    }
    lemma_pow10_grows(n, 18);
}

/// The powers of ten grow with the exponent.
proof fn lemma_pow10_grows(m: nat, n: nat)
    requires
        m <= n,
    ensures
        1 <= pow10(m) <= pow10(n),
    decreases n,
{
    if m == 0 {
        if n > 0 {
            lemma_pow10_grows(0, (n - 1) as nat);
        }
    } else {
        lemma_pow10_grows((m - 1) as nat, (n - 1) as nat);
    }
}

/// The number of atomic units in one display unit at `decimal_places`
/// places: ten to that power, for up to eighteen places, and nothing beyond.
pub fn decimal_scale(decimal_places: u8) -> (scale: Option<u64>)
    ensures
        match scale {
            Some(units) => decimal_places <= MAX_DECIMAL_PLACES && units == pow10(
                decimal_places as nat,
            ),
            None => decimal_places > MAX_DECIMAL_PLACES,
        },
{
    if decimal_places > MAX_DECIMAL_PLACES {
        return None;
    }
    let mut units: u64 = 1;
    let mut i: u8 = 0;
    while i < decimal_places
        invariant
            i <= decimal_places <= 18,
            units == pow10(i as nat),
        decreases decimal_places - i,
    {
        proof {
            lemma_pow10_bounds((i + 1) as nat);
        }
        units = units * 10;
        i += 1;
    }
    Some(units)
}

/// The path of the file that holds the record of `identity` below `root`.
pub fn account_path(root: &str, identity: &str) -> (path: String)
    ensures
        path@ == account_path_of(root@, identity@),
{
    let mut path = String::from_str(root);
    path.append("/accounts/");
    path.append(identity);
    path.append(".account");
    path
}

/// The path of the file that holds the index entry of the alias with the
/// digest `digest`, below `root`.
pub fn alias_path(root: &str, digest: &str) -> (path: String)
    ensures
        path@ == alias_path_of(root@, digest@),
{
    let mut path = String::from_str(root);
    path.append("/usernames/");
    path.append(digest);
    path.append(".uname");
    path
}

} // verus!
