use vstd::prelude::*;
use vstd::string::*;

use crate::account::{
    account_error,
    built_from,
    lower_of,
    new_account,
    AccountError,
    AccountType,
};
use crate::balance::Amount;
use crate::sink::{StoreAccess, S3};
use crate::text::{get_api_host, without_trailing_slash};

verus! {

/// How a collector is set up.
pub struct CollectorConfig {
    /// Vendors of the accounts to configure when no aggregator lists them.
    pub accounts: Vec<String>,
    /// The remote aggregator, when balances are submitted to one.
    pub api_host: Option<String>,
    pub crypto_watchlist: Vec<String>,
    /// Root of the filesystem sink, when it is enabled.
    pub filepath: Option<String>,
    pub poll_seconds: u64,
    /// Object-storage bucket; empty when that sink is disabled.
    pub s3_bucket: String,
    pub s3_proto: String,
    pub s3_region: String,
    pub stock_watchlist: Vec<String>,
}

/// The values an account is built from.
pub struct AccountSpec {
    pub name: String,
    pub vendor: String,
    pub id: String,
    pub database_id: Option<i32>,
    pub key: String,
    pub secret: String,
}

impl AccountSpec {
    /// Why the account cannot be built, if it cannot.
    pub open spec fn error(self) -> Option<AccountError> {
        account_error(lower_of(self.vendor@), self.key@, self.secret@)
    }

    /// `a` is the account these values describe.
    pub open spec fn builds(self, a: AccountType) -> bool {
        built_from(a, lower_of(self.vendor@), self.name@, self.id@, self.database_id, self.key@, self.secret@)
    }
}

/// Why a collector could not be configured.
#[derive(Clone, Copy, Debug, PartialEq, Eq, Structural)]
pub enum ConfigError {
    /// An aggregator is configured, but its URL is empty.
    EmptyApiHost,
    /// An account could not be built.
    Account(AccountError),
}

/// No aggregator is configured, or its URL is not empty once normalised.
pub open spec fn api_host_given(api_host: Option<String>) -> bool {
    api_host matches Some(h) ==> without_trailing_slash(h@).len() > 0
}

/// One unit of work of a polling cycle; failures are contained per unit.
#[derive(Clone, Copy, Debug, PartialEq, Eq, Structural)]
pub enum WorkUnit {
    /// Fetch the balance of an account and submit it to the aggregator.
    SubmitBalance { account: usize },
    /// Bring the candle series of a watched stock up to date.
    StockSymbol { account: usize, symbol: usize },
    /// Fetch the ticks of the crypto watch-list and merge them per pair.
    CryptoTicks { account: usize },
}

/// The account is a brokerage account.
pub open spec fn is_brokerage(a: AccountType) -> bool {
    a is TDAmeritradeAccount
}

/// The units of the account at position `i`, in order.
pub open spec fn account_units(i: int, brokerage: bool, submits: bool, n_symbols: nat) -> Seq<WorkUnit> {
    let submit = if submits {
        seq![WorkUnit::SubmitBalance { account: i as usize }]
    } else {
        Seq::empty()
    };
    if brokerage {
        submit + Seq::new(n_symbols, |j: int| WorkUnit::StockSymbol { account: i as usize, symbol: j as usize })
    } else {
        submit + seq![WorkUnit::CryptoTicks { account: i as usize }]
    }
}

/// The units of the first `n` accounts, accounts and symbols in
/// configuration order.
pub open spec fn cycle_units(accounts: Seq<AccountType>, n: int, submits: bool, n_symbols: nat) -> Seq<WorkUnit>
    decreases n,
{
    if n <= 0 {
        Seq::empty()
    } else {
        cycle_units(accounts, n - 1, submits, n_symbols) + account_units(
            n - 1,
            is_brokerage(accounts[n - 1]),
            submits,
            n_symbols,
        )
    }
}

/// How many times `u` occurs in `s`.
pub open spec fn occurrences(s: Seq<WorkUnit>, u: WorkUnit) -> nat
    decreases s.len(),
{
    if s.len() == 0 {
        0
    } else {
        occurrences(s.drop_last(), u) + if s.last() == u {
            1nat
        } else {
            0nat
        }
    }
}

proof fn lemma_occurrences_concat(a: Seq<WorkUnit>, b: Seq<WorkUnit>, u: WorkUnit)
    ensures
        occurrences(a + b, u) == occurrences(a, u) + occurrences(b, u),
    decreases b.len(),
{
    if b.len() == 0 {
        assert(a + b =~= a);
    } else {
        assert((a + b).drop_last() =~= a + b.drop_last());
        lemma_occurrences_concat(a, b.drop_last(), u);
    }
}

proof fn lemma_occurrences_symbols(k: int, n: nat, i: int, j: int)
    requires
        0 <= k <= usize::MAX,
        0 <= i <= usize::MAX,
        0 <= j <= usize::MAX,
        n <= usize::MAX + 1,
    ensures
        occurrences(
            Seq::new(n, |m: int| WorkUnit::StockSymbol { account: k as usize, symbol: m as usize }),
            WorkUnit::StockSymbol { account: i as usize, symbol: j as usize },
        ) == if k == i && j < n {
            1nat
        } else {
            0nat
        },
    decreases n,
{
    let s = Seq::new(n, |m: int| WorkUnit::StockSymbol { account: k as usize, symbol: m as usize });
    if n > 0 {
        let t = Seq::new((n - 1) as nat, |m: int| WorkUnit::StockSymbol { account: k as usize, symbol: m as usize });
        assert(s.drop_last() =~= t);
        lemma_occurrences_symbols(k, (n - 1) as nat, i, j);
        assert(s.last() == WorkUnit::StockSymbol { account: k as usize, symbol: (n - 1) as usize });
        assert((s.last() == WorkUnit::StockSymbol { account: i as usize, symbol: j as usize }) <==> (k == i && j
            == n - 1));
    }
}

proof fn lemma_symbol_units_upto(accounts: Seq<AccountType>, n: int, submits: bool, n_symbols: nat, i: int, j: int)
    requires
        0 <= n <= accounts.len() <= usize::MAX,
        0 <= i < accounts.len(),
        is_brokerage(accounts[i]),
        0 <= j < n_symbols,
        n_symbols <= usize::MAX,
    ensures
        occurrences(
            cycle_units(accounts, n, submits, n_symbols),
            WorkUnit::StockSymbol { account: i as usize, symbol: j as usize },
        ) == if i < n {
            1nat
        } else {
            0nat
        },
    decreases n,
{
    let u = WorkUnit::StockSymbol { account: i as usize, symbol: j as usize };
    if n == 0 {
    } else {
        let k = n - 1;
        let prev = cycle_units(accounts, k, submits, n_symbols);
        let submit = if submits {
            seq![WorkUnit::SubmitBalance { account: k as usize }]
        } else {
            Seq::empty()
        };
        lemma_symbol_units_upto(accounts, k, submits, n_symbols, i, j);
        lemma_occurrences_concat(prev, account_units(k, is_brokerage(accounts[k]), submits, n_symbols), u);
        assert(occurrences(Seq::<WorkUnit>::empty(), u) == 0);
        assert(occurrences(submit, u) == 0) by {
            if submits {
                assert(submit.drop_last() =~= Seq::<WorkUnit>::empty());
                assert(submit.last() != u);
            } else {
                assert(submit =~= Seq::<WorkUnit>::empty());
            }
        }
        if is_brokerage(accounts[k]) {
            let syms = Seq::new(n_symbols, |m: int| WorkUnit::StockSymbol { account: k as usize, symbol: m as usize });
            lemma_occurrences_concat(submit, syms, u);
            lemma_occurrences_symbols(k, n_symbols, i, j);
        } else {
            let ticks = seq![WorkUnit::CryptoTicks { account: k as usize }];
            lemma_occurrences_concat(submit, ticks, u);
            assert(ticks.drop_last() =~= Seq::<WorkUnit>::empty());
            assert(ticks.last() != u);
            assert(k != i);
        }
    }
}

/// In one polling cycle every watched stock of every brokerage account is
/// worked on exactly once, whatever the other accounts are.
pub proof fn lemma_each_symbol_once_per_cycle(
    accounts: Seq<AccountType>,
    submits: bool,
    n_symbols: nat,
    i: int,
    j: int,
)
    requires
        accounts.len() <= usize::MAX,
        n_symbols <= usize::MAX,
        0 <= i < accounts.len(),
        is_brokerage(accounts[i]),
        0 <= j < n_symbols,
    ensures
        occurrences(
            cycle_units(accounts, accounts.len() as int, submits, n_symbols),
            WorkUnit::StockSymbol { account: i as usize, symbol: j as usize },
        ) == 1,
{
    lemma_symbol_units_upto(accounts, accounts.len() as int, submits, n_symbols, i, j);
}

/// A balance observation handed to the aggregator.
#[derive(Clone, Copy, Debug, PartialEq, Eq, Structural)]
pub struct NewAccountBalancePayload {
    pub account_id: i32,
    pub balance: Amount,
}

/// The balances submitted in one request.
pub struct NewAccountBalancesPayload {
    pub balances: Vec<NewAccountBalancePayload>,
}

/// The record of `balance` for `account`, under its database identifier
/// (0 when it has none).
pub fn balance_record(account: &AccountType, balance: Amount) -> (r: NewAccountBalancePayload)
    ensures
        r.balance == balance,
        r.account_id == match account.database_id_spec() {
            Some(id) => id,
            None => 0i32,
        },
{
    NewAccountBalancePayload { account_id: account.balance_account_id(), balance }
}

/// The accounts, the sinks and the configuration of one collector.
pub struct Collector {
    pub accounts: Vec<AccountType>,
    pub bucket: S3,
    pub conf: CollectorConfig,
}

impl Collector {
    /// A collector for `conf` with an account for each of `specs`, in order;
    /// the aggregator URL loses a trailing `/`, and the object store, when
    /// `conf` names a bucket, is reached through `store`. An aggregator URL
    /// that is empty once normalised is refused first; then the first spec
    /// that cannot be built makes the whole configuration fail.
    pub fn new(conf: CollectorConfig, store: &StoreAccess, specs: &Vec<AccountSpec>) -> (r: Result<
        Collector,
        ConfigError,
    >)
        ensures
            r is Ok <==> api_host_given(conf.api_host) && forall|i: int|
                0 <= i < specs@.len() ==> (#[trigger] specs@[i]).error() is None,
            !api_host_given(conf.api_host) ==> r == Err::<Collector, ConfigError>(ConfigError::EmptyApiHost),
            r matches Err(ConfigError::Account(e)) ==> api_host_given(conf.api_host) && exists|i: int|
                0 <= i < specs@.len() && (#[trigger] specs@[i]).error() == Some(e) && forall|j: int|
                    0 <= j < i ==> (#[trigger] specs@[j]).error() is None,
            r matches Ok(c) ==> {
                &&& c.accounts@.len() == specs@.len()
                &&& forall|i: int| 0 <= i < specs@.len() ==> (#[trigger] specs@[i]).builds(c.accounts@[i])
                &&& c.conf.accounts@ == conf.accounts@
                &&& c.conf.crypto_watchlist@ == conf.crypto_watchlist@
                &&& c.conf.stock_watchlist@ == conf.stock_watchlist@
                &&& c.conf.filepath == conf.filepath
                &&& c.conf.poll_seconds == conf.poll_seconds
                &&& c.conf.s3_bucket@ == conf.s3_bucket@
                &&& c.conf.s3_proto@ == conf.s3_proto@
                &&& c.conf.s3_region@ == conf.s3_region@
                &&& match conf.api_host {
                    None => c.conf.api_host is None,
                    Some(h) => c.conf.api_host matches Some(n) && n@ == without_trailing_slash(h@) && n@.len()
                        > 0,
                }
                &&& conf.s3_bucket@.len() == 0 ==> c.bucket.bucket_name@.len() == 0
                    && c.bucket.region@ == "us-east-1"@ && c.bucket.endpoint@.len() == 0
                    && c.bucket.access_key@.len() == 0 && c.bucket.secret_key@.len() == 0
                &&& conf.s3_bucket@.len() > 0 ==> c.bucket.bucket_name@ == conf.s3_bucket@
                    && c.bucket.region@ == conf.s3_region@
                    && c.bucket.endpoint@ == conf.s3_proto@ + "://"@ + store.host@
                    && c.bucket.access_key@ == store.access_key@ && c.bucket.secret_key@ == store.secret_key@
            },
    {
        let api_ok = match &conf.api_host {
            None => true,
            Some(h) => get_api_host(h.as_str()).as_str().unicode_len() > 0,
        };
        if !api_ok {
            return Err(ConfigError::EmptyApiHost);
        }
        assert(api_host_given(conf.api_host));
        let mut accounts: Vec<AccountType> = Vec::new();
        let mut i: usize = 0;
        while i < specs.len()
            invariant
                api_host_given(conf.api_host),
                i <= specs@.len(),
                accounts@.len() == i,
                forall|k: int| 0 <= k < i ==> (#[trigger] specs@[k]).error() is None,
                forall|k: int| 0 <= k < i ==> (#[trigger] specs@[k]).builds(accounts@[k]),
            decreases specs@.len() - i,
        {
            let s = &specs[i];
            match new_account(
                s.name.as_str(),
                s.vendor.as_str(),
                s.id.as_str(),
                s.database_id,
                s.key.as_str(),
                s.secret.as_str(),
            ) {
                Ok(a) => {
                    accounts.push(a);
                },
                Err(e) => {
                    assert(specs@[i as int].error() == Some(e));
                    return Err(ConfigError::Account(e));
                },
            }
            i = i + 1;
        }
        let bucket = if conf.s3_bucket.unicode_len() == 0 {
            S3::default()
        } else {
            S3::new(conf.s3_bucket.clone(), conf.s3_proto.as_str(), conf.s3_region.clone(), store)
        };
        let CollectorConfig {
            accounts: names,
            api_host,
            crypto_watchlist,
            filepath,
            poll_seconds,
            s3_bucket,
            s3_proto,
            s3_region,
            stock_watchlist,
        } = conf;
        let api_host = match api_host {
            None => None,
            Some(h) => Some(get_api_host(h.as_str())),
        };
        let conf = CollectorConfig {
            accounts: names,
            api_host,
            crypto_watchlist,
            filepath,
            poll_seconds,
            s3_bucket,
            s3_proto,
            s3_region,
            stock_watchlist,
        };
        Ok(Collector { accounts, bucket, conf })
    }

    /// Balances are submitted to a remote aggregator.
    pub fn submits_balances(&self) -> (r: bool)
        ensures
            r == self.conf.api_host is Some,
    {
        self.conf.api_host.is_some()
    }

    /// Documents are written to the filesystem sink.
    pub fn uses_filesystem(&self) -> (r: bool)
        ensures
            r == self.conf.filepath is Some,
    {
        self.conf.filepath.is_some()
    }

    /// Documents are written to object storage.
    pub fn uses_object_storage(&self) -> (r: bool)
        ensures
            r == (self.conf.s3_bucket@.len() > 0),
    {
        self.conf.s3_bucket.unicode_len() > 0
    }

    /// The units of one polling cycle: accounts in configuration order; for
    /// each, its balance submission when an aggregator is configured, then,
    /// for a brokerage account, one unit per watched stock in order, and for
    /// an exchange account one unit for the whole crypto watch-list. The
    /// plan does not depend on how any unit turns out.
    pub fn cycle_plan(&self) -> (r: Vec<WorkUnit>)
        ensures
            r@ == cycle_units(
                self.accounts@,
                self.accounts@.len() as int,
                self.conf.api_host is Some,
                self.conf.stock_watchlist@.len(),
            ),
    {
        let submits = self.submits_balances();
        let n_symbols = self.conf.stock_watchlist.len();
        let ghost accts = self.accounts@;
        let mut plan: Vec<WorkUnit> = Vec::new();
        let mut i: usize = 0;
        while i < self.accounts.len()
            invariant
                accts == self.accounts@,
                submits == self.conf.api_host is Some,
                n_symbols == self.conf.stock_watchlist@.len(),
                i <= accts.len(),
                plan@ == cycle_units(accts, i as int, submits, n_symbols as nat),
            decreases accts.len() - i,
        {
            let ghost before = plan@;
            if submits {
                plan.push(WorkUnit::SubmitBalance { account: i });
            }
            let ghost submit = if submits {
                seq![WorkUnit::SubmitBalance { account: i }]
            } else {
                Seq::empty()
            };
            assert(plan@ =~= before + submit);
            match &self.accounts[i] {
                AccountType::TDAmeritradeAccount(_) => {
                    let mut j: usize = 0;
                    while j < n_symbols
                        invariant
                            j <= n_symbols,
                            plan@ == before + submit + Seq::new(
                                j as nat,
                                |k: int| WorkUnit::StockSymbol { account: i, symbol: k as usize },
                            ),
                        decreases n_symbols - j,
                    {
                        plan.push(WorkUnit::StockSymbol { account: i, symbol: j });
                        assert(Seq::new((j + 1) as nat, |k: int| WorkUnit::StockSymbol { account: i, symbol: k as usize })
                            =~= Seq::new(j as nat, |k: int| WorkUnit::StockSymbol { account: i, symbol: k as usize }).push(
                            WorkUnit::StockSymbol { account: i, symbol: j },
                        ));
                        j = j + 1;
                    }
                    assert(plan@ =~= before + account_units(i as int, true, submits, n_symbols as nat));
                },
                AccountType::KrakenAccount(_) => {
                    plan.push(WorkUnit::CryptoTicks { account: i });
                    assert(plan@ =~= before + account_units(i as int, false, submits, n_symbols as nat));
                },
            }
            assert(cycle_units(accts, i + 1, submits, n_symbols as nat) == before + account_units(
                i as int,
                is_brokerage(accts[i as int]),
                submits,
                n_symbols as nat,
            ));
            i = i + 1;
        }
        plan
    }
}

} // verus!
