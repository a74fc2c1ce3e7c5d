use mate::auth::{token_uri, Auth, AuthPayload, AuthResponse, Client};
use mate::text::get_api_host;

fn response(token: &str, expires_in: i64) -> AuthResponse {
    AuthResponse {
        access_token: token.to_string(),
        token_type: "Bearer".to_string(),
        expires_in,
    }
}

#[test]
fn test_get_authority() {
    assert_eq!(get_api_host("https://lol.com/"), "https://lol.com");
}

#[test]
fn api_host_without_slash_is_kept() {
    assert_eq!(get_api_host("https://lol.com"), "https://lol.com");
    assert_eq!(get_api_host(""), "");
    assert_eq!(get_api_host("/"), "");
    assert_eq!(get_api_host("http://a//"), "http://a/");
}

#[test]
fn fresh_cache_renews_on_first_request() {
    let auth = Auth::new();
    assert_eq!(auth.access_token, "");
    assert_eq!(auth.expiry, 0);
    for now in [0u64, 1, 1_700_000_000, u64::MAX] {
        assert!(auth.needs_renewal(now));
        assert_eq!(auth.get_token(now), None);
    }
}

#[test]
fn valid_token_is_reused_without_renewal() {
    let mut auth = Auth::new();
    let now = 1_700_000_000u64;
    assert_eq!(auth.get_token(now), None);
    let token = auth.renew_token(response("abc", 3600), now);
    assert_eq!(token, "abc");
    assert_eq!(auth.expiry, 1_700_003_600);
    assert_eq!(auth.get_token(now + 1), Some("abc".to_string()));
    assert_eq!(auth.get_token(now + 2), Some("abc".to_string()));
    assert!(!auth.needs_renewal(now + 3599));
    assert!(auth.needs_renewal(now + 3600));
    assert_eq!(auth.get_token(now + 3600), None);
}

#[test]
fn from_response_sets_expiry_from_issuance() {
    let auth = Auth::from_response(response("tok", 86400), 100);
    assert_eq!(auth.access_token, "tok");
    assert_eq!(auth.expiry, 86500);
    let late = Auth::from_response(response("tok", i64::MAX), u64::MAX);
    assert_eq!(late.expiry, u64::MAX as i128 + i64::MAX as i128);
    let expired = Auth::from_response(response("tok", -100), 50);
    assert_eq!(expired.expiry, -50);
    assert!(expired.needs_renewal(0));
}

#[test]
fn token_endpoint_and_client_uris() {
    assert_eq!(token_uri("https://auth.example/"), Some("https://auth.example/oauth/token".to_string()));
    assert_eq!(token_uri("https://auth.example"), Some("https://auth.example/oauth/token".to_string()));
    assert_eq!(token_uri(""), None);
    assert_eq!(token_uri("/"), None);
    let client = Client::new("http://api:8000".to_string());
    assert_eq!(client.accounts_uri(), "http://api:8000/accounts/");
    assert_eq!(client.balance_uri(), "http://api:8000/accounts/balance/");
    assert!(client.auth.needs_renewal(5));
}

#[test]
fn client_credentials_payload() {
    let p = AuthPayload::client_credentials("aud".to_string(), "id".to_string(), "SECRET-REDACTED".to_string());
    assert_eq!(p.audience, "aud");
    assert_eq!(p.grant_type, "client_credentials");
    assert_eq!(p.client_id, "id");
    assert_eq!(p.client_secret, "SECRET-REDACTED");
}

#[test]
fn validity_depends_on_expiry_alone() {
    let mut auth = Auth::new();
    auth.renew_token(response("", 3600), 100);
    assert_eq!(auth.expiry, 3700);
    assert!(!auth.needs_renewal(200));
    assert_eq!(auth.get_token(200), Some(String::new()));
    assert_eq!(auth.get_token(3699), Some(String::new()));
    assert_eq!(auth.get_token(3700), None);
}
