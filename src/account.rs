use vstd::prelude::*;
use vstd::string::*;

use crate::text::same_text;

verus! {

/// What every account carries whatever its provider.
pub struct Account {
    pub name: String,
}

impl Account {
    /// An account called `name`.
    pub fn new(name: &str) -> (r: Account)
        ensures
            r.name@ == name@,
    {
        Account { name: String::from_str(name) }
    }
}

/// A brokerage account.
pub struct TDAmeritradeAccount {
    pub account_id: String,
    pub account: Account,
    pub database_id: Option<i32>,
    pub client_id: String,
    pub refresh_token: String,
    pub active: bool,
}

/// An exchange account.
pub struct KrakenAccount {
    pub account_id: String,
    pub account: Account,
    pub database_id: Option<i32>,
    pub client_key: String,
    pub client_secret: String,
    pub active: bool,
}

/// A configured account of one of the supported providers.
pub enum AccountType {
    KrakenAccount(KrakenAccount),
    TDAmeritradeAccount(TDAmeritradeAccount),
}

/// Why an account could not be configured.
#[derive(Clone, Copy, Debug, PartialEq, Eq, Structural)]
pub enum AccountError {
    /// The vendor names no supported provider.
    UnsupportedVendor,
    /// The key or the secret is empty.
    MissingCredentials,
}

impl AccountType {
    /// The account's identifier in the aggregator's database, when it has one.
    pub open spec fn database_id_spec(&self) -> Option<i32> {
        match self {
            AccountType::KrakenAccount(a) => a.database_id,
            AccountType::TDAmeritradeAccount(a) => a.database_id,
        }
    }

    /// The account's identifier in the aggregator's database, when it has one.
    pub fn database_id(&self) -> (r: Option<i32>)
        ensures
            r == self.database_id_spec(),
    {
        match self {
            AccountType::KrakenAccount(a) => a.database_id,
            AccountType::TDAmeritradeAccount(a) => a.database_id,
        }
    }

    /// The identifier under which balances of the account are submitted:
    /// its database identifier, or 0 when it has none.
    pub fn balance_account_id(&self) -> (r: i32)
        ensures
            r == match self.database_id_spec() {
                Some(id) => id,
                None => 0i32,
            },
    {
        match self.database_id() {
            Some(id) => id,
            None => 0,
        }
    }
}

/// The lower-case form of a text, as `str::to_lowercase` computes it.
pub uninterp spec fn lower_of(s: Seq<char>) -> Seq<char>;

/// Relies on `str::to_lowercase`: the result depends on the characters
/// alone.
#[verifier::external_body]
fn lowercase(s: &str) -> (r: String)
    ensures
        r@ == lower_of(s@),
{
    s.to_lowercase()
}

/// Why an account of a (lower-case) vendor with these credentials cannot
/// be configured, if it cannot.
pub open spec fn account_error(vendor: Seq<char>, key: Seq<char>, secret: Seq<char>) -> Option<AccountError> {
    if vendor != "tdameritrade"@ && vendor != "kraken"@ {
        Some(AccountError::UnsupportedVendor)
    } else if key.len() == 0 || secret.len() == 0 {
        Some(AccountError::MissingCredentials)
    } else {
        None
    }
}

/// `a` is the active account of a (lower-case) vendor built from these
/// values.
pub open spec fn built_from(
    a: AccountType,
    vendor: Seq<char>,
    name: Seq<char>,
    id: Seq<char>,
    database_id: Option<i32>,
    key: Seq<char>,
    secret: Seq<char>,
) -> bool {
    if vendor == "tdameritrade"@ {
        a matches AccountType::TDAmeritradeAccount(t) && t.account.name@ == name && t.account_id@ == id
            && t.database_id == database_id && t.client_id@ == key && t.refresh_token@ == secret
            && t.active
    } else {
        a matches AccountType::KrakenAccount(k) && k.account.name@ == name && k.account_id@ == id
            && k.database_id == database_id && k.client_key@ == key && k.client_secret@ == secret
            && k.active
    }
}

/// Builds an account for an already lower-cased vendor name.
pub fn account_for_vendor(
    vendor: &str,
    name: &str,
    id: &str,
    database_id: Option<i32>,
    key: &str,
    secret: &str,
) -> (r: Result<AccountType, AccountError>)
    ensures
        match r {
            Ok(a) => account_error(vendor@, key@, secret@) is None && built_from(
                a,
                vendor@,
                name@,
                id@,
                database_id,
                key@,
                secret@,
            ),
            Err(e) => account_error(vendor@, key@, secret@) == Some(e),
        },
{
    proof {
        reveal_strlit("tdameritrade");
        reveal_strlit("kraken");
    }
    let is_td = same_text(vendor, "tdameritrade");
    let is_kraken = same_text(vendor, "kraken");
    if !is_td && !is_kraken {
        return Err(AccountError::UnsupportedVendor);
    }
    if key.unicode_len() == 0 || secret.unicode_len() == 0 {
        return Err(AccountError::MissingCredentials);
    }
    if is_td {
        Ok(
            AccountType::TDAmeritradeAccount(
                TDAmeritradeAccount {
                    account_id: String::from_str(id),
                    account: Account::new(name),
                    database_id,
                    client_id: String::from_str(key),
                    refresh_token: String::from_str(secret),
                    active: true,
                },
            ),
        )
    } else {
        Ok(
            AccountType::KrakenAccount(
                KrakenAccount {
                    account_id: String::from_str(id),
                    account: Account::new(name),
                    database_id,
                    client_key: String::from_str(key),
                    client_secret: String::from_str(secret),
                    active: true,
                },
            ),
        )
    }
}

/// Builds an account of the provider that `vendor` names, in any case.
/// Empty credentials are a configuration error: they have to be resolved
/// before an account is built.
pub fn new_account(
    name: &str,
    vendor: &str,
    id: &str,
    database_id: Option<i32>,
    key: &str,
    secret: &str,
) -> (r: Result<AccountType, AccountError>)
    ensures
        match r {
            Ok(a) => account_error(lower_of(vendor@), key@, secret@) is None && built_from(
                a,
                lower_of(vendor@),
                name@,
                id@,
                database_id,
                key@,
                secret@,
            ),
            Err(e) => account_error(lower_of(vendor@), key@, secret@) == Some(e),
        },
{
    let lowered = lowercase(vendor);
    account_for_vendor(lowered.as_str(), name, id, database_id, key, secret)
}

} // verus!
