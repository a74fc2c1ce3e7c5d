use vstd::prelude::*;
use vstd::string::*;

use rust_decimal::Decimal;

use crate::text::same_text;

verus! {

/// Largest magnitude of a decimal mantissa: 2^96 - 1.
pub const MAX_MANTISSA: i128 = 0xFFFF_FFFF_FFFF_FFFF_FFFF_FFFF;

/// Largest number of decimal places.
pub const MAX_SCALE: u32 = 28;

/// A decimal number `mantissa / 10^scale`.
#[derive(Clone, Copy, Debug, PartialEq, Eq, Structural)]
pub struct Amount {
    pub mantissa: i128,
    pub scale: u32,
}

impl Amount {
    /// The amount is a representable decimal.
    pub open spec fn wf(self) -> bool {
        &&& self.scale <= MAX_SCALE
        &&& -MAX_MANTISSA <= self.mantissa <= MAX_MANTISSA
    }

    /// Zero.
    pub open spec fn zero_spec() -> Amount {
        Amount { mantissa: 0, scale: 0 }
    }

    /// Zero.
    pub fn zero() -> (r: Amount)
        ensures
            r == Amount::zero_spec(),
            r.wf(),
    {
        Amount { mantissa: 0, scale: 0 }
    }
}

/// The checked product of two decimals, as rust_decimal computes it.
pub uninterp spec fn decimal_product(a: Amount, b: Amount) -> Option<Amount>;

/// The checked sum of two decimals, as rust_decimal computes it.
pub uninterp spec fn decimal_sum(a: Amount, b: Amount) -> Option<Amount>;

/// The decimal that rust_decimal reads from a text, if it reads one.
pub uninterp spec fn decimal_parse(s: Seq<char>) -> Option<Amount>;

/// Relies on rust_decimal's `Decimal::checked_mul`: the product, or `None`
/// on overflow; a result is a `Decimal`, so its scale is at most 28 and
/// its mantissa below 2^96 in magnitude.
#[verifier::external_body]
fn checked_product(a: Amount, b: Amount) -> (r: Option<Amount>)
    requires
        a.wf(),
        b.wf(),
    ensures
        r == decimal_product(a, b),
        r matches Some(p) ==> p.wf(),
{
    let x = Decimal::from_i128_with_scale(a.mantissa, a.scale);
    let y = Decimal::from_i128_with_scale(b.mantissa, b.scale);
    x.checked_mul(y).map(|d| Amount { mantissa: d.mantissa(), scale: d.scale() })
}

/// Relies on rust_decimal's `Decimal::checked_add`: the sum, or `None` on
/// overflow; a result is a `Decimal`, so its scale is at most 28 and its
/// mantissa below 2^96 in magnitude.
#[verifier::external_body]
fn checked_sum(a: Amount, b: Amount) -> (r: Option<Amount>)
    requires
        a.wf(),
        b.wf(),
    ensures
        r == decimal_sum(a, b),
        r matches Some(p) ==> p.wf(),
{
    let x = Decimal::from_i128_with_scale(a.mantissa, a.scale);
    let y = Decimal::from_i128_with_scale(b.mantissa, b.scale);
    x.checked_add(y).map(|d| Amount { mantissa: d.mantissa(), scale: d.scale() })
}

/// Relies on rust_decimal's `Decimal::from_str`: the decimal written in `s`,
/// or `None` when `s` is not a decimal; a result is a `Decimal`, so its
/// scale is at most 28 and its mantissa below 2^96 in magnitude.
#[verifier::external_body]
fn parse_decimal(s: &str) -> (r: Option<Amount>)
    ensures
        r == decimal_parse(s@),
        r matches Some(p) ==> p.wf(),
{
    <Decimal as std::str::FromStr>::from_str(s).ok().map(|d| Amount { mantissa: d.mantissa(), scale: d.scale() })
}

/// The spot price carried by a ticker's list of closing prices: its first
/// entry, read as a decimal.
pub fn spot_price(close: &Vec<String>) -> (r: Option<Amount>)
    ensures
        close@.len() == 0 ==> r is None,
        close@.len() > 0 ==> r == decimal_parse(close@[0]@),
        r matches Some(p) ==> p.wf(),
{
    if close.len() == 0 {
        None
    } else {
        parse_decimal(close[0].as_str())
    }
}

/// `i` is the first position of a `.` in `s`.
pub open spec fn is_first_dot(s: Seq<char>, i: int) -> bool {
    &&& 0 <= i < s.len()
    &&& s[i] == '.'
    &&& forall|j: int| 0 <= j < i ==> s[j] != '.'
}

/// The part of an asset name before its first `.`: staked holdings carry a
/// suffix such as `.S` that the exchange does not trade.
pub open spec fn base_asset(s: Seq<char>) -> Seq<char> {
    if exists|i: int| is_first_dot(s, i) {
        s.subrange(0, choose|i: int| is_first_dot(s, i))
    } else {
        s
    }
}

/// The pair whose price converts a holding of `asset` into the reference
/// currency; `None` for the reference currency itself.
pub open spec fn trading_pair(asset: Seq<char>) -> Option<Seq<char>> {
    let base = base_asset(asset);
    if base == "ZUSD"@ {
        None
    } else if base == "ATOM"@ {
        Some("ATOMUSD"@)
    } else if base == "XXDG"@ {
        Some("XDGUSD"@)
    } else {
        Some(base + "ZUSD"@)
    }
}

/// The pair to price a holding of `asset` with, or `None` when `asset` is
/// the reference currency and counts as it is.
pub fn asset_pair(asset: &str) -> (r: Option<String>)
    ensures
        r is None <==> trading_pair(asset@) is None,
        r matches Some(p) ==> trading_pair(asset@) == Some(p@),
{
    let n = asset.unicode_len();
    let mut i: usize = 0;
    while i < n && asset.get_char(i) != '.'
        invariant
            n == asset@.len(),
            i <= n,
            forall|j: int| 0 <= j < i ==> asset@[j] != '.',
        decreases n - i,
    {
        i = i + 1;
    }
    proof {
        if i < n {
            assert(is_first_dot(asset@, i as int));
            let k = choose|k: int| is_first_dot(asset@, k);
            assert(k == i as int) by {
                if k < i {
                    assert(asset@[k] != '.');
                } else if k > i {
                    assert(asset@[i as int] != '.');
                }
            }
        } else {
            assert(asset@.subrange(0, i as int) == asset@);
            assert(!exists|k: int| is_first_dot(asset@, k));
        }
    }
    let base = asset.substring_char(0, i);
    assert(base@ == base_asset(asset@));
    proof {
        reveal_strlit("ZUSD");
        reveal_strlit("ATOM");
        reveal_strlit("XXDG");
        reveal_strlit("ATOMUSD");
        reveal_strlit("XDGUSD");
    }
    if same_text(base, "ZUSD") {
        None
    } else if same_text(base, "ATOM") {
        Some(String::from_str("ATOMUSD"))
    } else if same_text(base, "XXDG") {
        Some(String::from_str("XDGUSD"))
    } else {
        Some(String::from_str(base).concat("ZUSD"))
    }
}

/// One asset held on an exchange, with the spot price of its pair when it
/// has one.
pub struct Holding {
    pub asset: String,
    pub amount: Amount,
    pub spot_price: Option<Amount>,
}

/// Why a balance could not be computed.
#[derive(Clone, Copy, Debug, PartialEq, Eq, Structural)]
pub enum BalanceError {
    /// A holding outside the reference currency came without a spot price.
    MissingPrice,
    /// A product or sum left the range of a decimal.
    Overflow,
}

/// The holding's amounts are representable decimals.
pub open spec fn holding_wf(h: Holding) -> bool {
    &&& h.amount.wf()
    &&& h.spot_price matches Some(p) ==> p.wf()
}

/// What a holding adds to the balance, in the reference currency.
pub open spec fn contribution(h: Holding) -> Result<Amount, BalanceError> {
    if trading_pair(h.asset@) is None {
        Ok(h.amount)
    } else {
        match h.spot_price {
            None => Err(BalanceError::MissingPrice),
            Some(p) => match decimal_product(p, h.amount) {
                Some(v) => Ok(v),
                None => Err(BalanceError::Overflow),
            },
        }
    }
}

/// The balance of the holdings, summed in order from zero.
pub open spec fn balance_of(hs: Seq<Holding>) -> Result<Amount, BalanceError>
    decreases hs.len(),
{
    if hs.len() == 0 {
        Ok(Amount::zero_spec())
    } else {
        match balance_of(hs.drop_last()) {
            Err(e) => Err(e),
            Ok(acc) => match contribution(hs.last()) {
                Err(e) => Err(e),
                Ok(c) => match decimal_sum(acc, c) {
                    Some(s) => Ok(s),
                    None => Err(BalanceError::Overflow),
                },
            },
        }
    }
}

/// An error on a prefix of the holdings is the error of the whole.
proof fn lemma_error_persists(hs: Seq<Holding>, k: int)
    requires
        0 <= k <= hs.len(),
        balance_of(hs.subrange(0, k)) is Err,
    ensures
        balance_of(hs) == balance_of(hs.subrange(0, k)),
    decreases hs.len() - k,
{
    if k < hs.len() {
        let next = hs.subrange(0, k + 1);
        assert(next.drop_last() =~= hs.subrange(0, k));
        lemma_error_persists(hs, k + 1);
    } else {
        assert(hs.subrange(0, k) =~= hs);
    }
}

/// The value of an exchange account in the reference currency: each
/// holding converted at its spot price (the reference currency itself
/// counts as it is), summed in order.
pub fn exchange_balance(holdings: &Vec<Holding>) -> (r: Result<Amount, BalanceError>)
    requires
        forall|i: int| 0 <= i < holdings@.len() ==> holding_wf(#[trigger] holdings@[i]),
    ensures
        r == balance_of(holdings@),
{
    let mut acc = Amount::zero();
    let mut i: usize = 0;
    assert(holdings@.subrange(0, 0).len() == 0);
    while i < holdings.len()
        invariant
            i <= holdings@.len(),
            forall|k: int| 0 <= k < holdings@.len() ==> holding_wf(#[trigger] holdings@[k]),
            acc.wf(),
            balance_of(holdings@.subrange(0, i as int)) == Ok::<Amount, BalanceError>(acc),
        decreases holdings@.len() - i,
    {
        let h = &holdings[i];
        let ghost next = holdings@.subrange(0, i + 1);
        assert(next.drop_last() =~= holdings@.subrange(0, i as int));
        assert(next.last() == holdings@[i as int]);
        assert(holding_wf(holdings@[i as int]));
        let value = match asset_pair(h.asset.as_str()) {
            None => h.amount,
            Some(_) => match h.spot_price {
                None => {
                    proof { lemma_error_persists(holdings@, i + 1); }
                    return Err(BalanceError::MissingPrice);
                },
                Some(p) => match checked_product(p, h.amount) {
                    Some(v) => v,
                    None => {
                        proof { lemma_error_persists(holdings@, i + 1); }
                        return Err(BalanceError::Overflow);
                    },
                },
            },
        };
        match checked_sum(acc, value) {
            Some(s) => {
                acc = s;
            },
            None => {
                proof { lemma_error_persists(holdings@, i + 1); }
                return Err(BalanceError::Overflow);
            },
        }
        i = i + 1;
    }
    assert(holdings@.subrange(0, i as int) =~= holdings@);
    Ok(acc)
}

} // verus!
