use vstd::prelude::*;
use vstd::string::*;

use crate::collector::AccountSpec;

verus! {

/// An account as the remote aggregator lists it.
pub struct Account {
    pub id: i32,
    pub name: String,
    pub vendor: String,
    pub client_key: String,
    /// The secret as stored by the aggregator, encrypted.
    pub client_secret: String,
    /// Creation time, in seconds since the Unix epoch.
    pub created: i64,
    /// Last update, in seconds since the Unix epoch.
    pub updated: Option<i64>,
}

/// The aggregator's list of accounts.
pub struct Accounts {
    pub accounts: Vec<Account>,
}

impl Accounts {
    /// An empty list, which is what a collector works with when the
    /// aggregator cannot be reached.
    pub fn new() -> (r: Accounts)
        ensures
            r.accounts@.len() == 0,
    {
        Accounts { accounts: Vec::new() }
    }
}

/// The decimal digit for `d` below ten.
pub open spec fn digit_char(d: nat) -> char {
    if d == 0 { '0' }
    else if d == 1 { '1' }
    else if d == 2 { '2' }
    else if d == 3 { '3' }
    else if d == 4 { '4' }
    else if d == 5 { '5' }
    else if d == 6 { '6' }
    else if d == 7 { '7' }
    else if d == 8 { '8' }
    else { '9' }
}

/// The decimal digits of `n`, most significant first.
pub open spec fn digits(n: nat) -> Seq<char>
    decreases n,
{
    if n < 10 {
        seq![digit_char(n)]
    } else {
        digits(n / 10).push(digit_char(n % 10))
    }
}

/// The decimal text of `n`, with a leading `-` when it is negative.
pub open spec fn int_text(n: int) -> Seq<char> {
    if n < 0 {
        seq!['-'] + digits((-n) as nat)
    } else {
        digits(n as nat)
    }
}

/// The one-character text of the digit `d`.
fn digit_text(d: u64) -> (r: &'static str)
    requires
        d < 10,
    ensures
        r@ == seq![digit_char(d as nat)],
{
    proof {
        reveal_strlit("0");
        reveal_strlit("1");
        reveal_strlit("2");
        reveal_strlit("3");
        reveal_strlit("4");
        reveal_strlit("5");
        reveal_strlit("6");
        reveal_strlit("7");
        reveal_strlit("8");
        reveal_strlit("9");
    }
    let r = if d == 0 {
        "0"
    } else if d == 1 {
        "1"
    } else if d == 2 {
        "2"
    } else if d == 3 {
        "3"
    } else if d == 4 {
        "4"
    } else if d == 5 {
        "5"
    } else if d == 6 {
        "6"
    } else if d == 7 {
        "7"
    } else if d == 8 {
        "8"
    } else {
        "9"
    };
    assert(r@ =~= seq![digit_char(d as nat)]);
    r
}

/// The decimal text of `n`.
fn i32_text(n: i32) -> (r: String)
    ensures
        r@ == int_text(n as int),
{
    let magnitude: u64 = if n < 0 {
        (-(n as i64)) as u64
    } else {
        n as u64
    };
    let ghost total = magnitude as nat;
    let mut digits_text = String::new();
    if magnitude == 0 {
        digits_text = String::from_str(digit_text(0));
        assert(digits(total) == digits_text@);
    } else {
        let mut m: u64 = magnitude;
        assert(digits(total) =~= digits(m as nat) + digits_text@);
        while m > 0
            invariant
                m > 0 ==> digits(total) == digits(m as nat) + digits_text@,
                m == 0 ==> digits(total) == digits_text@,
            decreases m,
        {
            let d = m % 10;
            let ghost before = digits_text@;
            digits_text = String::from_str(digit_text(d)).concat(digits_text.as_str());
            assert(digits_text@ == seq![digit_char(d as nat)] + before);
            if m >= 10 {
                assert(digits(m as nat) == digits((m / 10) as nat).push(digit_char((m % 10) as nat)));
                assert(digits((m / 10) as nat).push(digit_char(d as nat)) + before =~= digits((m / 10) as nat)
                    + digits_text@);
            } else {
                assert(digits(m as nat) == seq![digit_char(m as nat)]);
                assert(d == m);
            }
            m = m / 10;
        }
    }
    assert(digits(total) == digits_text@);
    if n < 0 {
        proof {
            reveal_strlit("-");
        }
        assert(total == -(n as int));
        assert("-"@ =~= seq!['-']);
        String::from_str("-").concat(digits_text.as_str())
    } else {
        digits_text
    }
}

impl AccountSpec {
    /// The values of an aggregator-listed account whose secret has been
    /// decrypted to `secret`: the account is named after the listing, its
    /// identifier is the decimal text of its database identifier.
    pub fn from_remote(account: &Account, secret: &str) -> (r: AccountSpec)
        ensures
            r.name@ == account.name@,
            r.vendor@ == account.vendor@,
            r.id@ == int_text(account.id as int),
            r.database_id == Some(account.id),
            r.key@ == account.client_key@,
            r.secret@ == secret@,
    {
        AccountSpec {
            name: account.name.clone(),
            vendor: account.vendor.clone(),
            id: i32_text(account.id),
            database_id: Some(account.id),
            key: account.client_key.clone(),
            secret: String::from_str(secret),
        }
    }

    /// The values of an account configured by vendor alone: it is named
    /// after its vendor and has no identifier.
    pub fn from_vendor(vendor: &str, key: &str, secret: &str) -> (r: AccountSpec)
        ensures
            r.name@ == vendor@,
            r.vendor@ == vendor@,
            r.id@.len() == 0,
            r.database_id is None,
            r.key@ == key@,
            r.secret@ == secret@,
    {
        AccountSpec {
            name: String::from_str(vendor),
            vendor: String::from_str(vendor),
            id: String::new(),
            database_id: None,
            key: String::from_str(key),
            secret: String::from_str(secret),
        }
    }
}

} // verus!
