use vstd::prelude::*;
use vstd::string::*;

use crate::text::{join2, join3, same_text};

verus! {

/// How the object store is reached: its host and the credentials that
/// the environment supplies.
pub struct StoreAccess {
    pub host: String,
    pub access_key: String,
    pub secret_key: String,
}

/// Where object-storage writes go: a bucket reached path-style at an
/// endpoint, with the credentials to write there. An empty bucket name
/// means object storage is not configured.
pub struct S3 {
    pub bucket_name: String,
    pub region: String,
    pub endpoint: String,
    pub access_key: String,
    pub secret_key: String,
}

impl S3 {
    /// A bucket `name` in `region`, served at `proto://host` and written with
    /// the credentials of `access`.
    pub fn new(name: String, proto: &str, region: String, access: &StoreAccess) -> (r: S3)
        ensures
            r.bucket_name@ == name@,
            r.region@ == region@,
            r.endpoint@ == proto@ + "://"@ + access.host@,
            r.access_key@ == access.access_key@,
            r.secret_key@ == access.secret_key@,
    {
        S3 {
            bucket_name: name,
            region,
            endpoint: join3(proto, "://", access.host.as_str()),
            access_key: access.access_key.clone(),
            secret_key: access.secret_key.clone(),
        }
    }

    /// The unconfigured store: no bucket, the default region, no endpoint,
    /// empty credentials.
    pub fn default() -> (r: S3)
        ensures
            r.bucket_name@.len() == 0,
            r.region@ == "us-east-1"@,
            r.endpoint@.len() == 0,
            r.access_key@.len() == 0,
            r.secret_key@.len() == 0,
    {
        S3 {
            bucket_name: String::new(),
            region: String::from_str("us-east-1"),
            endpoint: String::new(),
            access_key: String::new(),
            secret_key: String::new(),
        }
    }

    /// The path-style address of the object stored under `path`, which
    /// begins with `/`.
    pub fn object_url(&self, path: &str) -> (r: String)
        ensures
            r@ == self.endpoint@ + "/"@ + self.bucket_name@ + path@,
    {
        let base = join3(self.endpoint.as_str(), "/", self.bucket_name.as_str());
        join2(base.as_str(), path)
    }
}

/// The directories under the filesystem root that the collector writes
/// into, parents first.
pub fn filesystem_tree(root: &str) -> (r: Vec<String>)
    ensures
        r@.len() == 5,
        r@[0]@ == root@,
        r@[1]@ == root@ + "/equity/"@,
        r@[2]@ == root@ + "/equity/daily"@,
        r@[3]@ == root@ + "/crypto/"@,
        r@[4]@ == root@ + "/crypto/tick"@,
{
    let mut dirs: Vec<String> = Vec::new();
    dirs.push(String::from_str(root));
    dirs.push(join2(root, "/equity/"));
    dirs.push(join2(root, "/equity/daily"));
    dirs.push(join2(root, "/crypto/"));
    dirs.push(join2(root, "/crypto/tick"));
    dirs
}

/// The file holding the daily candles of `symbol`.
pub fn equity_file_path(root: &str, symbol: &str) -> (r: String)
    ensures
        r@ == root@ + "/equity/daily/"@ + symbol@ + ".json"@,
{
    let p = join3(root, "/equity/daily/", symbol);
    join2(p.as_str(), ".json")
}

/// The directory holding the tick documents of `pair`.
pub fn tick_dir(root: &str, pair: &str) -> (r: String)
    ensures
        r@ == root@ + "/crypto/tick/"@ + pair@,
{
    join3(root, "/crypto/tick/", pair)
}

/// The file holding the ticks of `pair` on the day `ymd` (`YYYYMMDD`).
pub fn tick_file_path(root: &str, pair: &str, ymd: &str) -> (r: String)
    ensures
        r@ == root@ + "/crypto/tick/"@ + pair@ + "/"@ + ymd@ + ".json"@,
{
    let dir = tick_dir(root, pair);
    let p = join3(dir.as_str(), "/", ymd);
    join2(p.as_str(), ".json")
}

/// The object key of the daily candles of `symbol` written on `ymd`.
pub fn equity_object_key(symbol: &str, ymd: &str) -> (r: String)
    ensures
        r@ == "/equity-daily-"@ + symbol@ + "-"@ + ymd@ + ".json"@,
{
    let p = join3("/equity-daily-", symbol, "-");
    let q = join2(p.as_str(), ymd);
    join2(q.as_str(), ".json")
}

/// The object key of the ticks of `pair` written on `ymd`.
pub fn tick_object_key(pair: &str, ymd: &str) -> (r: String)
    ensures
        r@ == "/crypto-tick-"@ + pair@ + "-"@ + ymd@ + ".json"@,
{
    let p = join3("/crypto-tick-", pair, "-");
    let q = join2(p.as_str(), ymd);
    join2(q.as_str(), ".json")
}

/// What became of a write to one sink.
#[derive(Clone, Copy, Debug, PartialEq, Eq, Structural)]
pub enum SinkStatus {
    /// The sink is not configured.
    Disabled,
    Written,
    Failed,
}

/// What a unit of work (one symbol, one pair) reports once its document
/// has been committed.
#[derive(Clone, Copy, Debug, PartialEq, Eq, Structural)]
pub struct UnitReport {
    /// The unit counts as done for this cycle.
    pub processed: bool,
    pub file_failed: bool,
    pub storage_failed: bool,
}

/// The object-storage copy is written after a filesystem write that ended
/// with `file`: a failed filesystem write ends the unit.
pub open spec fn writes_object_after_spec(file: SinkStatus) -> bool {
    file != SinkStatus::Failed
}

/// Whether the object-storage copy is written after the filesystem write
/// ended with `file`.
pub fn writes_object_after(file: SinkStatus) -> (r: bool)
    ensures
        r == writes_object_after_spec(file),
{
    !matches!(file, SinkStatus::Failed)
}

/// The report of a unit whose filesystem and object-storage writes ended
/// with `file` and `object`. Only a filesystem failure undoes the unit; an
/// object-storage failure is reported and the unit still counts as done.
pub open spec fn report_of(file: SinkStatus, object: SinkStatus) -> UnitReport {
    UnitReport {
        processed: file != SinkStatus::Failed,
        file_failed: file == SinkStatus::Failed,
        storage_failed: object == SinkStatus::Failed,
    }
}

/// The report of a unit whose filesystem and object-storage writes ended
/// with `file` and `object` (see `report_of`).
pub fn commit_report(file: SinkStatus, object: SinkStatus) -> (r: UnitReport)
    ensures
        r == report_of(file, object),
{
    UnitReport {
        processed: !matches!(file, SinkStatus::Failed),
        file_failed: matches!(file, SinkStatus::Failed),
        storage_failed: matches!(object, SinkStatus::Failed),
    }
}

/// One tick of a pair, under its time key; the payload is the provider's
/// JSON text, kept as it came.
pub struct TickEntry {
    pub key: String,
    pub payload: String,
}

/// The ticks of one pair on one day, each key at most once, in the order
/// in which keys were first recorded.
pub struct TickSnapshot {
    entries: Vec<TickEntry>,
}

/// The (key, payload) texts of a list of entries.
pub open spec fn entry_texts(es: Seq<TickEntry>) -> Seq<(Seq<char>, Seq<char>)> {
    es.map_values(|e: TickEntry| (e.key@, e.payload@))
}

/// No key occurs twice.
pub open spec fn keys_unique(s: Seq<(Seq<char>, Seq<char>)>) -> bool {
    forall|i: int, j: int| 0 <= i < s.len() && 0 <= j < s.len() && i != j ==> s[i].0 != s[j].0
}

/// The snapshot after recording `payload` under `key`: an entry with that
/// key is replaced in place, otherwise the entry is added at the end.
pub open spec fn recorded(s: Seq<(Seq<char>, Seq<char>)>, key: Seq<char>, payload: Seq<char>) -> Seq<(Seq<char>, Seq<char>)> {
    if exists|i: int| 0 <= i < s.len() && s[i].0 == key {
        s.update(choose|i: int| 0 <= i < s.len() && s[i].0 == key, (key, payload))
    } else {
        s.push((key, payload))
    }
}

impl View for TickSnapshot {
    type V = Seq<(Seq<char>, Seq<char>)>;

    closed spec fn view(&self) -> Seq<(Seq<char>, Seq<char>)> {
        entry_texts(self.entries@)
    }
}

impl TickSnapshot {
    /// Keys are unique.
    pub open spec fn wf(&self) -> bool {
        keys_unique(self@)
    }

    /// An empty snapshot.
    pub fn new() -> (r: TickSnapshot)
        ensures
            r.wf(),
            r@.len() == 0,
    {
        let r = TickSnapshot { entries: Vec::new() };
        assert(r@ =~= Seq::empty());
        r
    }

    /// The stored entries.
    pub fn entries(&self) -> (r: &Vec<TickEntry>)
        ensures
            entry_texts(r@) == self@,
    {
        &self.entries
    }

    /// Records `payload` under `key`, replacing an earlier payload under the
    /// same key.
    pub fn record(&mut self, key: String, payload: String)
        requires
            old(self).wf(),
        ensures
            final(self).wf(),
            final(self)@ == recorded(old(self)@, key@, payload@),
    {
        let ghost before = self@;
        let ghost kv = key@;
        let ghost pv = payload@;
        let n = self.entries.len();
        let mut i: usize = 0;
        let mut found = false;
        while i < n && !found
            invariant
                n == self.entries@.len(),
                self@ == before,
                key@ == kv,
                i <= n,
                found ==> i < n && before[i as int].0 == kv,
                !found ==> forall|j: int| 0 <= j < i ==> before[j].0 != kv,
            decreases n - i + (if found { 0int } else { 1int }),
        {
            if same_text(self.entries[i].key.as_str(), key.as_str()) {
                assert(before[i as int] == (self.entries@[i as int].key@, self.entries@[i as int].payload@));
                found = true;
            } else {
                assert(before[i as int] == (self.entries@[i as int].key@, self.entries@[i as int].payload@));
                i = i + 1;
            }
        }
        if found {
            let ghost ii = i as int;
            let ghost k = choose|k: int| 0 <= k < before.len() && before[k].0 == kv;
            assert(k == ii) by {
                if k != ii {
                    assert(before[k].0 != before[ii].0);
                }
            }
            let ghost old_entries = self.entries@;
            let entry = TickEntry { key, payload };
            self.entries[i] = entry;
            assert forall|j: int| 0 <= j < self@.len() implies self@[j] == before.update(ii, (kv, pv))[j] by {
                assert(self@[j] == (self.entries@[j].key@, self.entries@[j].payload@));
                assert(before[j] == (old_entries[j].key@, old_entries[j].payload@));
            }
            assert(self@ =~= before.update(ii, (kv, pv)));
            assert forall|a: int, b: int|
                0 <= a < self@.len() && 0 <= b < self@.len() && a != b implies self@[a].0 != self@[b].0 by {
                assert(self@[a].0 == before[a].0);
                assert(self@[b].0 == before[b].0);
            }
        } else {
            assert(!exists|k: int| 0 <= k < before.len() && before[k].0 == kv);
            self.entries.push(TickEntry { key, payload });
            assert(self@ =~= before.push((kv, pv)));
        }
    }
}

} // verus!
