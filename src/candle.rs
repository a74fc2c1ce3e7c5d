use vstd::prelude::*;

verus! {

/// Minimum age, in milliseconds, that the last candle of a series must
/// reach before a refresh is fetched: eight hours.
pub const STALENESS_WINDOW_MS: u64 = 28_800_000;

/// One daily price bar. Prices are kept as the bit patterns of the
/// provider's binary64 floating-point values, which the library never
/// alters; `datetime` is in milliseconds since the Unix epoch.
#[derive(Clone, Copy, Debug, PartialEq, Eq, Structural)]
pub struct MateCandle {
    pub close: u64,
    pub datetime: u64,
    pub high: u64,
    pub low: u64,
    pub open: u64,
    pub volume: i64,
}

/// What a polling cycle has to fetch for one symbol.
#[derive(Clone, Copy, Debug, PartialEq, Eq, Structural)]
pub enum FetchPlan {
    /// Nothing is stored yet: fetch the full history and replace the series.
    FullHistory,
    /// The last bar is older than the staleness window: fetch the most
    /// recent bar and append it.
    LatestBar,
    /// The last bar is recent enough: fetch nothing this cycle.
    UpToDate,
}

/// Timestamps never decrease along `s`.
pub open spec fn is_ordered(s: Seq<MateCandle>) -> bool {
    forall|i: int, j: int| 0 <= i <= j < s.len() ==> s[i].datetime <= s[j].datetime
}

/// A bar stamped `last` is older than the staleness window at `now`.
pub open spec fn is_stale(last: int, now: int) -> bool {
    last + STALENESS_WINDOW_MS < now
}

/// The fetch that a stored series calls for at `now`.
pub open spec fn fetch_plan(s: Seq<MateCandle>, now: int) -> FetchPlan {
    if s.len() == 0 {
        FetchPlan::FullHistory
    } else if is_stale(s.last().datetime as int, now) {
        FetchPlan::LatestBar
    } else {
        FetchPlan::UpToDate
    }
}

/// A bar is accepted at the end of `s` when it does not precede the last
/// stored bar.
pub open spec fn accepts(s: Seq<MateCandle>, bar: MateCandle) -> bool {
    s.len() == 0 || s.last().datetime <= bar.datetime
}

/// The series after offering it the most recent bar.
pub open spec fn with_latest_bar(s: Seq<MateCandle>, bar: MateCandle) -> Seq<MateCandle> {
    if accepts(s, bar) {
        s.push(bar)
    } else {
        s
    }
}

/// The price bars of one symbol, in time order.
pub struct CandleSeries {
    candles: Vec<MateCandle>,
}

impl View for CandleSeries {
    type V = Seq<MateCandle>;

    closed spec fn view(&self) -> Seq<MateCandle> {
        self.candles@
    }
}

/// Whether the timestamps of `candles` never decrease.
fn ordered(candles: &Vec<MateCandle>) -> (r: bool)
    ensures
        r == is_ordered(candles@),
{
    let n = candles.len();
    if n == 0 {
        return true;
    }
    let mut i: usize = 1;
    while i < n
        invariant
            n == candles@.len(),
            1 <= i <= n,
            is_ordered(candles@.subrange(0, i as int)),
        decreases n - i,
    {
        if candles[i].datetime < candles[i - 1].datetime {
            assert(!is_ordered(candles@)) by {
                assert(candles@[i - 1].datetime > candles@[i as int].datetime);
            }
            return false;
        }
        let ghost prev = candles@.subrange(0, i as int);
        let ghost next = candles@.subrange(0, i + 1);
        assert forall|a: int, b: int| 0 <= a <= b < next.len() implies next[a].datetime <= next[b].datetime by {
            if b < i {
                assert(next[a] == prev[a] && next[b] == prev[b]);
            } else if a < b {
                assert(prev[a].datetime <= prev[i - 1].datetime);
                assert(next[a] == prev[a]);
            }
        }
        i = i + 1;
    }
    assert(candles@ == candles@.subrange(0, n as int));
    true
}

impl CandleSeries {
    /// Timestamps never decrease along the series.
    pub closed spec fn wf(&self) -> bool {
        is_ordered(self.candles@)
    }

    /// An empty series.
    pub fn new() -> (r: CandleSeries)
        ensures
            r.wf(),
            r@.len() == 0,
    {
        CandleSeries { candles: Vec::new() }
    }

    /// The series made of `candles`, when their timestamps never decrease.
    pub fn from_candles(candles: Vec<MateCandle>) -> (r: Option<CandleSeries>)
        ensures
            r is Some <==> is_ordered(candles@),
            r matches Some(s) ==> s.wf() && s@ == candles@,
    {
        if ordered(&candles) {
            Some(CandleSeries { candles })
        } else {
            None
        }
    }

    /// The stored bars, in time order when the series is well formed.
    pub fn candles(&self) -> (r: &Vec<MateCandle>)
        ensures
            r@ == self@,
            self.wf() ==> is_ordered(r@),
    {
        &self.candles
    }

    /// The number of stored bars.
    pub fn len(&self) -> (r: usize)
        ensures
            r == self@.len(),
    {
        self.candles.len()
    }

    /// What has to be fetched for this series at `now` (milliseconds since
    /// the epoch).
    pub fn plan_fetch(&self, now: u64) -> (r: FetchPlan)
        ensures
            r == fetch_plan(self@, now as int),
    {
        let n = self.candles.len();
        if n == 0 {
            FetchPlan::FullHistory
        } else {
            let last = self.candles[n - 1].datetime;
            if now > STALENESS_WINDOW_MS && last < now - STALENESS_WINDOW_MS {
                FetchPlan::LatestBar
            } else {
                FetchPlan::UpToDate
            }
        }
    }

    /// Offers the most recent bar: it is appended, and `true` returned, unless
    /// it precedes the last stored bar. Stored bars are never removed or
    /// reordered.
    pub fn append_latest(&mut self, bar: MateCandle) -> (r: bool)
        requires
            old(self).wf(),
        ensures
            final(self).wf(),
            r == accepts(old(self)@, bar),
            final(self)@ == with_latest_bar(old(self)@, bar),
    {
        let n = self.candles.len();
        if n == 0 || self.candles[n - 1].datetime <= bar.datetime {
            let ghost before = self.candles@;
            self.candles.push(bar);
            assert forall|i: int, j: int| 0 <= i <= j < self.candles@.len() implies
                self.candles@[i].datetime <= self.candles@[j].datetime by {
                if j == n && i < j {
                    assert(before[i].datetime <= before[n - 1].datetime);
                }
            }
            true
        } else {
            false
        }
    }
}

/// What the provider returned for the fetch a plan called for.
pub enum Fetched {
    /// The full history, as the provider ordered it.
    History(Vec<MateCandle>),
    /// The most recent bar.
    LatestBar(MateCandle),
    /// The fetch failed, or none was made.
    Nothing,
}

/// What a unit of work does with its symbol after the fetch.
pub enum SymbolOutcome {
    /// Persist this series in place of the stored one.
    Write(CandleSeries),
    /// Leave the stored series as it is this cycle.
    Skip,
}

/// The series to persist, if any, when `stored` was planned with `plan` and
/// the fetch brought `fetched`. A full history replaces the stored series
/// when it is in time order; a latest bar is appended when it does not
/// precede the stored bars; anything else, a failed fetch included, leaves
/// the stored series untouched.
pub open spec fn series_after(stored: Seq<MateCandle>, plan: FetchPlan, fetched: Fetched) -> Option<Seq<MateCandle>> {
    match (plan, fetched) {
        (FetchPlan::FullHistory, Fetched::History(v)) => if is_ordered(v@) {
            Some(v@)
        } else {
            None
        },
        (FetchPlan::LatestBar, Fetched::LatestBar(bar)) => if accepts(stored, bar) {
            Some(stored.push(bar))
        } else {
            None
        },
        _ => None,
    }
}

/// Settles one symbol of a polling cycle: `plan` is what `stored` called
/// for, `fetched` what the provider returned for it.
pub fn update_series(stored: CandleSeries, plan: FetchPlan, fetched: Fetched) -> (r: SymbolOutcome)
    requires
        stored.wf(),
        plan == FetchPlan::FullHistory ==> stored@.len() == 0,
    ensures
        match series_after(stored@, plan, fetched) {
            Some(s) => r matches SymbolOutcome::Write(w) && w.wf() && w@ == s,
            None => r is Skip,
        },
{
    match (plan, fetched) {
        (FetchPlan::FullHistory, Fetched::History(v)) => match CandleSeries::from_candles(v) {
            Some(s) => SymbolOutcome::Write(s),
            None => SymbolOutcome::Skip,
        },
        (FetchPlan::LatestBar, Fetched::LatestBar(bar)) => {
            let mut s = stored;
            if s.append_latest(bar) {
                SymbolOutcome::Write(s)
            } else {
                SymbolOutcome::Skip
            }
        },
        _ => SymbolOutcome::Skip,
    }
}

/// A symbol with nothing stored calls for exactly one fetch, of the full
/// history, which then becomes the stored series when it is in time order.
pub proof fn lemma_empty_series_fetches_history(s: Seq<MateCandle>, now: int, history: Vec<MateCandle>)
    requires
        s.len() == 0,
        is_ordered(history@),
    ensures
        fetch_plan(s, now) == FetchPlan::FullHistory,
        series_after(s, fetch_plan(s, now), Fetched::History(history)) == Some(history@),
{
}

/// A symbol whose last bar lies within the staleness window calls for no
/// fetch, and its stored series is left as it is.
pub proof fn lemma_recent_series_is_left_alone(s: Seq<MateCandle>, now: int)
    requires
        s.len() > 0,
        !is_stale(s.last().datetime as int, now),
    ensures
        fetch_plan(s, now) == FetchPlan::UpToDate,
        series_after(s, fetch_plan(s, now), Fetched::Nothing) is None,
{
}

/// A symbol whose last bar is older than the staleness window calls for one
/// latest-bar fetch; a bar that does not precede the stored ones then grows
/// the series by exactly that bar, keeping the stored bars in order.
pub proof fn lemma_stale_series_gains_one_bar(s: Seq<MateCandle>, now: int, bar: MateCandle)
    requires
        is_ordered(s),
        s.len() > 0,
        is_stale(s.last().datetime as int, now),
        s.last().datetime <= bar.datetime,
    ensures
        fetch_plan(s, now) == FetchPlan::LatestBar,
        series_after(s, fetch_plan(s, now), Fetched::LatestBar(bar)) == Some(with_latest_bar(s, bar)),
        with_latest_bar(s, bar).len() == s.len() + 1,
        with_latest_bar(s, bar).subrange(0, s.len() as int) == s,
        with_latest_bar(s, bar).last() == bar,
        is_ordered(with_latest_bar(s, bar)),
{
    let t = with_latest_bar(s, bar);
    assert(t.subrange(0, s.len() as int) =~= s);
    assert forall|i: int, j: int| 0 <= i <= j < t.len() implies t[i].datetime <= t[j].datetime by {
        if j == s.len() && i < j {
            assert(s[i].datetime <= s[s.len() - 1].datetime);
        }
    }
}

} // verus!
