use mate::account::{new_account, Account, AccountError, AccountType};
use mate::collector::balance_record;
use mate::balance::Amount;

#[test]
fn vendor_is_matched_in_any_case() {
    match new_account("main", "KRAKEN", "7", Some(7), "key", "SECRET-REDACTED") {
        Ok(AccountType::KrakenAccount(k)) => {
            assert_eq!(k.account.name, "main");
            assert_eq!(k.account_id, "7");
            assert_eq!(k.database_id, Some(7));
            assert_eq!(k.client_key, "key");
            assert_eq!(k.client_secret, "SECRET-REDACTED");
            assert!(k.active);
        }
        _ => panic!("expected an exchange account"),
    }
    match new_account("broker", "TDAmeritrade", "", None, "client", "refresh") {
        Ok(AccountType::TDAmeritradeAccount(t)) => {
            assert_eq!(t.account.name, "broker");
            assert_eq!(t.client_id, "client");
            assert_eq!(t.refresh_token, "refresh");
            assert_eq!(t.database_id, None);
        }
        _ => panic!("expected a brokerage account"),
    }
}

#[test]
fn unsupported_vendor_is_refused() {
    assert!(matches!(new_account("x", "coinbase", "", None, "k", "s"), Err(AccountError::UnsupportedVendor)));
    assert!(matches!(new_account("x", "", "", None, "", ""), Err(AccountError::UnsupportedVendor)));
}

#[test]
fn empty_credentials_are_refused() {
    assert!(matches!(new_account("x", "kraken", "", None, "", "s"), Err(AccountError::MissingCredentials)));
    assert!(matches!(new_account("x", "tdameritrade", "", None, "k", ""), Err(AccountError::MissingCredentials)));
}

#[test]
fn balance_records_use_database_id_or_zero() {
    let a = new_account("a", "kraken", "3", Some(3), "k", "s").unwrap();
    let b = new_account("b", "kraken", "", None, "k", "s").unwrap();
    let amt = Amount { mantissa: 151000, scale: 1 };
    assert_eq!(balance_record(&a, amt).account_id, 3);
    assert_eq!(balance_record(&b, amt).account_id, 0);
    assert_eq!(balance_record(&b, amt).balance, amt);
    assert_eq!(a.balance_account_id(), 3);
}

#[test]
fn account_keeps_its_name() {
    assert_eq!(Account::new("desk").name, "desk");
}
