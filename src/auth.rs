use vstd::prelude::*;
use vstd::string::*;

use crate::text::{join2, without_trailing_slash};

verus! {

/// A bearer credential for the remote aggregator together with the instant
/// at which it stops being valid.
pub struct Auth {
    pub access_token: String,
    /// Expiry in seconds since the Unix epoch.
    pub expiry: i128,
}

/// What the credential authority answers to a client-credentials exchange.
pub struct AuthResponse {
    pub access_token: String,
    pub token_type: String,
    /// Lifetime of the token in seconds, counted from issuance.
    pub expires_in: i64,
}

/// The body of a client-credentials exchange.
pub struct AuthPayload {
    pub audience: String,
    pub grant_type: String,
    pub client_id: String,
    pub client_secret: String,
}

impl Auth {
    /// The token may be used at `now` (seconds since the Unix epoch): it has
    /// not yet expired.
    pub open spec fn is_valid_at(&self, now: int) -> bool {
        now < self.expiry
    }

    /// The state of a cache that has never been renewed: no token, expired
    /// at the epoch.
    pub open spec fn is_fresh(&self) -> bool {
        &&& self.access_token@.len() == 0
        &&& self.expiry == 0
    }

    /// An empty cache whose expiry is the epoch, so that the first request
    /// for a token asks for a renewal whatever the clock reads.
    pub fn new() -> (r: Auth)
        ensures
            r.is_fresh(),
    {
        Auth { access_token: String::new(), expiry: 0 }
    }

    /// The cache holding the token of `response`, issued at `now` (seconds
    /// since the Unix epoch).
    pub fn from_response(response: AuthResponse, now: u64) -> (r: Auth)
        ensures
            r.access_token@ == response.access_token@,
            r.expiry == now + response.expires_in,
    {
        Auth { access_token: response.access_token, expiry: now as i128 + response.expires_in as i128 }
    }

    /// Whether a token request at `now` (seconds since the Unix epoch) must
    /// first renew the token: it has expired.
    pub fn needs_renewal(&self, now: u64) -> (r: bool)
        ensures
            r == !self.is_valid_at(now as int),
    {
        !((now as i128) < self.expiry)
    }

    /// The cached token when it is still valid at `now` (seconds since the
    /// Unix epoch); `None` when a renewal has to be made first (see
    /// `renew_token`). The cache is left as it is.
    pub fn get_token(&self, now: u64) -> (r: Option<String>)
        ensures
            self.is_valid_at(now as int) ==> (r matches Some(t) && t@ == self.access_token@),
            !self.is_valid_at(now as int) ==> r is None,
    {
        if self.needs_renewal(now) {
            None
        } else {
            Some(self.access_token.clone())
        }
    }

    /// Stores the token of a renewal answered at `now` (seconds since the
    /// Unix epoch) and returns it.
    pub fn renew_token(&mut self, response: AuthResponse, now: u64) -> (r: String)
        ensures
            r@ == response.access_token@,
            final(self).access_token@ == response.access_token@,
            final(self).expiry == now + response.expires_in,
    {
        let token = response.access_token.clone();
        self.expiry = now as i128 + response.expires_in as i128;
        self.access_token = response.access_token;
        token
    }
}

/// A freshly built cache asks for a renewal on its first token request,
/// whatever the clock reads, because its expiry is the epoch.
pub proof fn lemma_fresh_cache_renews(auth: Auth, now: u64)
    requires
        auth.is_fresh(),
    ensures
        !auth.is_valid_at(now as int),
{
}

/// After a renewal at `issued` that stored a token living `expires_in`
/// seconds, two token requests at `first` and `second` before expiry both
/// reuse the stored token: no further renewal is made.
pub proof fn lemma_valid_token_reused(auth: Auth, issued: int, expires_in: int, first: int, second: int)
    requires
        auth.expiry == issued + expires_in,
        issued <= first <= second,
        second < issued + expires_in,
    ensures
        auth.is_valid_at(first),
        auth.is_valid_at(second),
{
}

impl AuthPayload {
    /// A client-credentials request for `audience`.
    pub fn client_credentials(audience: String, client_id: String, client_secret: String) -> (r: AuthPayload)
        ensures
            r.audience@ == audience@,
            r.grant_type@ == "client_credentials"@,
            r.client_id@ == client_id@,
            r.client_secret@ == client_secret@,
    {
        AuthPayload {
            audience,
            grant_type: String::from_str("client_credentials"),
            client_id,
            client_secret,
        }
    }
}

/// The token endpoint of a credential authority, whose URL is normalised
/// to carry no trailing `/`; `None` when no authority is given (an empty
/// URL, or a lone `/`), which is a configuration error.
pub fn token_uri(authority: &str) -> (r: Option<String>)
    ensures
        without_trailing_slash(authority@).len() == 0 ==> r is None,
        without_trailing_slash(authority@).len() > 0 ==> (r matches Some(u) && u@ == without_trailing_slash(
            authority@,
        ) + "/oauth/token"@),
{
    let host = crate::text::get_api_host(authority);
    if host.as_str().unicode_len() == 0 {
        None
    } else {
        Some(join2(host.as_str(), "/oauth/token"))
    }
}

/// A client of the remote aggregator.
pub struct Client {
    pub api_host: String,
    pub auth: Auth,
}

impl Client {
    /// A client for `api_host` with a fresh credential cache.
    pub fn new(api_host: String) -> (r: Client)
        ensures
            r.api_host@ == api_host@,
            r.auth.is_fresh(),
    {
        Client { api_host, auth: Auth::new() }
    }

    /// Where the aggregator lists the accounts.
    pub fn accounts_uri(&self) -> (r: String)
        ensures
            r@ == self.api_host@ + "/accounts/"@,
    {
        join2(self.api_host.as_str(), "/accounts/")
    }

    /// Where balances are submitted.
    pub fn balance_uri(&self) -> (r: String)
        ensures
            r@ == self.api_host@ + "/accounts/balance/"@,
    {
        join2(self.api_host.as_str(), "/accounts/balance/")
    }
}

} // verus!
