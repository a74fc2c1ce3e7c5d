use mate::balance::{asset_pair, exchange_balance, spot_price, Amount, BalanceError, Holding};
use rust_decimal::Decimal;
use std::str::FromStr;

fn amount(text: &str) -> Amount {
    let d = Decimal::from_str(text).unwrap();
    Amount { mantissa: d.mantissa(), scale: d.scale() }
}

fn value(a: Amount) -> Decimal {
    Decimal::from_i128_with_scale(a.mantissa, a.scale)
}

fn holding(asset: &str, qty: &str, price: Option<&str>) -> Holding {
    Holding {
        asset: asset.to_string(),
        amount: amount(qty),
        spot_price: price.map(amount),
    }
}

#[test]
fn reference_and_priced_holdings_are_summed() {
    let price = spot_price(&vec!["30000.0".to_string(), "1".to_string()]).unwrap();
    assert_eq!(value(price), Decimal::from_str("30000").unwrap());
    assert_eq!(asset_pair("XXBT"), Some("XXBTZUSD".to_string()));
    let holdings = vec![
        holding("ZUSD", "100.0", None),
        Holding { asset: "XXBT".to_string(), amount: amount("0.5"), spot_price: Some(price) },
    ];
    let total = exchange_balance(&holdings).unwrap();
    assert_eq!(value(total), Decimal::from_str("15100.0").unwrap());
}

#[test]
fn empty_account_is_worth_zero() {
    let total = exchange_balance(&Vec::new()).unwrap();
    assert_eq!(value(total), Decimal::ZERO);
}

#[test]
fn pairs_follow_exchange_naming() {
    assert_eq!(asset_pair("ZUSD"), None);
    assert_eq!(asset_pair("ZUSD.HOLD"), None);
    assert_eq!(asset_pair("ATOM"), Some("ATOMUSD".to_string()));
    assert_eq!(asset_pair("ATOM.S"), Some("ATOMUSD".to_string()));
    assert_eq!(asset_pair("XXDG"), Some("XDGUSD".to_string()));
    assert_eq!(asset_pair("DOT.S"), Some("DOTZUSD".to_string()));
    assert_eq!(asset_pair("XETH"), Some("XETHZUSD".to_string()));
    assert_eq!(asset_pair("A.B.C"), Some("AZUSD".to_string()));
    assert_eq!(asset_pair(""), Some("ZUSD".to_string()));
}

#[test]
fn staked_holding_is_priced_by_its_base_asset() {
    let holdings = vec![holding("DOT.S", "2", Some("7.25")), holding("ZUSD", "0.75", None)];
    let total = exchange_balance(&holdings).unwrap();
    assert_eq!(value(total), Decimal::from_str("15.25").unwrap());
}

#[test]
fn missing_price_is_an_error() {
    let holdings = vec![holding("ZUSD", "1", None), holding("XETH", "1", None)];
    assert_eq!(exchange_balance(&holdings), Err(BalanceError::MissingPrice));
}

#[test]
fn overflow_is_an_error() {
    let big = "79228162514264337593543950335";
    let holdings = vec![holding("XXBT", big, Some("2"))];
    assert_eq!(exchange_balance(&holdings), Err(BalanceError::Overflow));
    let holdings = vec![holding("ZUSD", big, None), holding("ZUSD", big, None)];
    assert_eq!(exchange_balance(&holdings), Err(BalanceError::Overflow));
}

#[test]
fn spot_price_reads_first_close() {
    assert_eq!(spot_price(&Vec::new()), None);
    assert_eq!(spot_price(&vec!["abc".to_string()]), None);
    let p = spot_price(&vec!["1.2345".to_string(), "9".to_string()]).unwrap();
    assert_eq!(p, Amount { mantissa: 12345, scale: 4 });
    assert_eq!(Amount::zero(), Amount { mantissa: 0, scale: 0 });
}
