use vstd::prelude::*;

use crate::errors::AppError;
use crate::keyed::{
    keyed, keys_unique, lemma_keyed_dom, lemma_keyed_filter, lemma_keyed_push, lemma_keyed_remove,
    lemma_keyed_update,
    lemma_keyed_value, lemma_unique_push,
};
use crate::text::{decimal, decimal_string, owned};

verus! {

broadcast use vstd::seq_lib::group_seq_properties;

/// How many requests an identifier may make within a sliding window.
#[derive(Debug, Clone, Copy, PartialEq, Eq, Structural)]
pub struct RateLimitConfig {
    pub max_requests: usize,
    /// The window's length, in milliseconds.
    pub window_duration: u64,
}

impl Default for RateLimitConfig {
    fn default() -> (r: Self)
        ensures
            r == (RateLimitConfig { max_requests: 100, window_duration: 60_000 }),
    {
        RateLimitConfig { max_requests: 100, window_duration: 60_000 }
    }
}

/// A request made at `t` still counts at `now`: it is not in the future and lies less
/// than a window back.
pub open spec fn in_window(t: u64, now: u64, window: u64) -> bool {
    t <= now && now - t < window
}

pub open spec fn counts_at(now: u64, window: u64) -> spec_fn(u64) -> bool {
    |t: u64| in_window(t, now, window)
}

/// The requests of `ts` that still count at `now`.
pub open spec fn live_requests(ts: Seq<u64>, now: u64, window: u64) -> Seq<u64> {
    ts.filter(counts_at(now, window))
}

/// One check at `now` against the recorded times `ts`: whether it is allowed, and the
/// recorded times afterwards.
pub open spec fn check_step(ts: Seq<u64>, now: u64, c: RateLimitConfig) -> (bool, Seq<u64>) {
    let live = live_requests(ts, now, c.window_duration);
    if live.len() < c.max_requests {
        (true, live.push(now))
    } else {
        (false, live)
    }
}

/// The outcomes of checks made at `times`, in order, starting from the recorded `ts`.
pub open spec fn run_checks(ts: Seq<u64>, times: Seq<u64>, c: RateLimitConfig) -> Seq<bool>
    decreases times.len(),
{
    if times.len() == 0 {
        seq![]
    } else {
        let (ok, next) = check_step(ts, times[0], c);
        seq![ok] + run_checks(next, times.drop_first(), c)
    }
}

/// The message of a refusal.
pub open spec fn limit_message(c: RateLimitConfig) -> Seq<char> {
    "Rate limit exceeded: "@ + decimal(c.max_requests as nat) + " requests per "@ + decimal(
        (c.window_duration / 1000) as nat,
    ) + " seconds"@
}

/// The times of one identifier's requests.
#[derive(Debug)]
pub struct RequestRecord {
    timestamps: Vec<u64>,
}

impl View for RequestRecord {
    type V = Seq<u64>;

    closed spec fn view(&self) -> Seq<u64> {
        self.timestamps@
    }
}

impl RequestRecord {
    pub fn new() -> (r: RequestRecord)
        ensures
            r@ == Seq::<u64>::empty(),
    {
        RequestRecord { timestamps: Vec::new() }
    }

    pub fn add_request(&mut self, now: u64)
        ensures
            final(self)@ == old(self)@.push(now),
    {
        self.timestamps.push(now);
    }

    /// Forgets the requests that no longer count at `now`.
    pub fn cleanup(&mut self, window: u64, now: u64)
        ensures
            final(self)@ == live_requests(old(self)@, now, window),
    {
        let ghost orig = self.timestamps@;
        let mut kept: Vec<u64> = Vec::new();
        let mut i: usize = 0;
        while i < self.timestamps.len()
            invariant
                orig == self.timestamps@,
                i <= orig.len(),
                kept@ == orig.take(i as int).filter(counts_at(now, window)),
            decreases orig.len() - i,
        {
            proof {
                assert(orig.take(i + 1) =~= orig.take(i as int).push(orig[i as int]));
                orig.take(i as int).lemma_filter_push(orig[i as int], counts_at(now, window));
            }
            let t = self.timestamps[i];
            if t <= now && now - t < window {
                kept.push(t);
            }
            i = i + 1;
        }
        proof {
            assert(orig.take(i as int) =~= orig);
        }
        self.timestamps = kept;
    }

    pub fn request_count(&self) -> (r: usize)
        ensures
            r == self@.len(),
    {
        self.timestamps.len()
    }
}

/// An identifier and its requests.
#[derive(Debug)]
struct IdRecord {
    identifier: String,
    record: RequestRecord,
}

pub struct RecordView {
    pub identifier: Seq<char>,
    pub times: Seq<u64>,
}

pub open spec fn has_requests() -> spec_fn(RecordView) -> bool {
    |v: RecordView| v.times.len() > 0
}

pub open spec fn record_key() -> spec_fn(RecordView) -> Seq<char> {
    |r: RecordView| r.identifier
}

/// The requests recorded over all identifiers.
pub open spec fn request_total(records: Seq<RecordView>) -> nat
    decreases records.len(),
{
    if records.len() == 0 {
        0
    } else {
        request_total(records.drop_last()) + records.last().times.len()
    }
}

/// Counts over the identifiers tracked.
#[derive(Debug, Clone, Copy, PartialEq, Eq, Structural)]
pub struct RateLimiterStats {
    pub total_identifiers: usize,
    /// Requests recorded over all identifiers, saturating at `usize::MAX`.
    pub total_requests: usize,
    pub max_requests: usize,
    pub window_duration_seconds: u64,
}

/// Limits each identifier to `max_requests` requests within a sliding window, each
/// identifier on its own. Times are in milliseconds and are given by the caller.
pub struct RateLimiter {
    records: Vec<IdRecord>,
    config: RateLimitConfig,
}

impl RateLimiter {
    pub closed spec fn record_list(&self) -> Seq<RecordView> {
        self.records@.map_values(|r: IdRecord| RecordView { identifier: r.identifier@, times: r.record@ })
    }

    /// The recorded request times by identifier.
    pub open spec fn windows(&self) -> Map<Seq<char>, Seq<u64>> {
        keyed(self.record_list(), record_key()).map_values(|r: RecordView| r.times)
    }

    pub closed spec fn config(&self) -> RateLimitConfig {
        self.config
    }

    pub open spec fn wf(&self) -> bool {
        keys_unique(self.record_list(), record_key())
    }

    /// The recorded times of `id`, none if it is not tracked.
    pub open spec fn times_of(&self, id: Seq<char>) -> Seq<u64> {
        if self.windows().contains_key(id) {
            self.windows()[id]
        } else {
            Seq::empty()
        }
    }

    /// A limiter with the default configuration: 100 requests a minute.
    pub fn new() -> (r: RateLimiter)
        ensures
            r.wf(),
            r.windows() == Map::<Seq<char>, Seq<u64>>::empty(),
            r.config() == (RateLimitConfig { max_requests: 100, window_duration: 60_000 }),
    {
        RateLimiter::with_config(RateLimitConfig::default())
    }

    pub fn with_config(config: RateLimitConfig) -> (r: RateLimiter)
        ensures
            r.wf(),
            r.windows() == Map::<Seq<char>, Seq<u64>>::empty(),
            r.config() == config,
    {
        let r = RateLimiter { records: Vec::new(), config };
        proof {
            assert(r.windows() =~= Map::<Seq<char>, Seq<u64>>::empty());
        }
        r
    }

    pub fn get_config(&self) -> (r: RateLimitConfig)
        ensures
            r == self.config(),
    {
        self.config
    }

    fn find(&self, id: &str) -> (r: Option<usize>)
        requires
            self.wf(),
        ensures
            r is None <==> !self.windows().contains_key(id@),
            r is Some ==> r->Some_0 < self.record_list().len() && self.record_list()[r->Some_0 as int].identifier
                == id@ && self.windows()[id@] == self.record_list()[r->Some_0 as int].times,
    {
        let wanted = owned(id);
        let mut i: usize = 0;
        while i < self.records.len()
            invariant
                self.wf(),
                i <= self.records@.len(),
                wanted@ == id@,
                forall|j: int| 0 <= j < i ==> self.record_list()[j].identifier != id@,
            decreases self.records@.len() - i,
        {
            if self.records[i].identifier == wanted {
                proof {
                    lemma_keyed_dom(self.record_list(), record_key(), id@);
                    lemma_keyed_value(self.record_list(), record_key(), i as int);
                    assert(self.record_list()[i as int].identifier == id@);
                }
                return Some(i);
            }
            i = i + 1;
        }
        proof {
            lemma_keyed_dom(self.record_list(), record_key(), id@);
        }
        None
    }

    /// Applies a check at `now` to the record at `i`; returns whether it was allowed.
    fn check_at(&mut self, i: usize, now: u64) -> (allowed: bool)
        requires
            old(self).wf(),
            i < old(self).record_list().len(),
        ensures
            final(self).wf(),
            final(self).config() == old(self).config(),
            ({
                let step = check_step(old(self).record_list()[i as int].times, now, old(self).config());
                &&& allowed == step.0
                &&& final(self).windows() == old(self).windows().insert(
                    old(self).record_list()[i as int].identifier,
                    step.1,
                )
            }),
    {
        let ghost before = self.record_list();
        let ghost w = self.windows();
        let c = self.config;
        let mut entry = self.records.remove(i);
        entry.record.cleanup(c.window_duration, now);
        let allowed = entry.record.request_count() < c.max_requests;
        if allowed {
            entry.record.add_request(now);
        }
        self.records.insert(i, entry);
        proof {
            let v = RecordView { identifier: entry.identifier@, times: entry.record@ };
            assert(self.record_list() =~= before.update(i as int, v));
            lemma_keyed_update(before, record_key(), i as int, v);
            assert(self.windows() =~= w.insert(v.identifier, v.times));
        }
        allowed
    }

    /// Checks a request of `identifier` at `now`: forgets its requests that no longer
    /// count, then refuses if as many as `max_requests` remain, and otherwise records
    /// this one and allows it.
    pub fn check_rate_limit(&mut self, identifier: &str, now: u64) -> (r: Result<(), AppError>)
        requires
            old(self).wf(),
        ensures
            final(self).wf(),
            final(self).config() == old(self).config(),
            r is Ok == check_step(old(self).times_of(identifier@), now, old(self).config()).0,
            final(self).windows() == old(self).windows().insert(
                identifier@,
                check_step(old(self).times_of(identifier@), now, old(self).config()).1,
            ),
            r is Err ==> (r->Err_0 matches AppError::RateLimitError { message } && message@
                == limit_message(old(self).config())),
    {
        let c = self.config;
        let i = match self.find(identifier) {
            Some(i) => i,
            None => {
                let ghost before = self.record_list();
                let ghost w = self.windows();
                let entry = IdRecord { identifier: owned(identifier), record: RequestRecord::new() };
                self.records.push(entry);
                proof {
                    let v = RecordView { identifier: entry.identifier@, times: entry.record@ };
                    assert(self.record_list() =~= before.push(v));
                    lemma_keyed_dom(before, record_key(), identifier@);
                    lemma_unique_push(before, record_key(), v);
                    lemma_keyed_push(before, record_key(), v);
                    assert(self.windows() =~= w.insert(v.identifier, v.times));
                    lemma_keyed_value(self.record_list(), record_key(), before.len() as int);
                    assert(Seq::<u64>::empty().filter(counts_at(now, c.window_duration)) =~= Seq::<u64>::empty()) by {
                        reveal(Seq::filter);
                    }
                }
                (self.records.len() - 1) as usize
            },
        };
        proof {
            lemma_keyed_value(self.record_list(), record_key(), i as int);
        }
        let allowed = self.check_at(i, now);
        if allowed {
            Ok(())
        } else {
            let mut m = owned("Rate limit exceeded: ");
            let a = decimal_string(c.max_requests as u64);
            m.append(a.as_str());
            m.append(" requests per ");
            let b = decimal_string(c.window_duration / 1000);
            m.append(b.as_str());
            m.append(" seconds");
            Err(AppError::RateLimitError { message: m })
        }
    }

    /// The number of requests of `identifier` that count at `now`; the ones that no
    /// longer count are forgotten.
    pub fn get_request_count(&mut self, identifier: &str, now: u64) -> (r: usize)
        requires
            old(self).wf(),
        ensures
            final(self).wf(),
            final(self).config() == old(self).config(),
            r == live_requests(old(self).times_of(identifier@), now, old(self).config().window_duration).len(),
            !old(self).windows().contains_key(identifier@) ==> final(self).windows() == old(self).windows(),
            old(self).windows().contains_key(identifier@) ==> final(self).windows() == old(self).windows().insert(
                identifier@,
                live_requests(old(self).windows()[identifier@], now, old(self).config().window_duration),
            ),
    {
        match self.find(identifier) {
            None => {
                proof {
                    assert(Seq::<u64>::empty().filter(counts_at(now, self.config.window_duration)) =~= Seq::<u64>::empty()) by {
                        reveal(Seq::filter);
                    }
                }
                0
            },
            Some(i) => {
                let ghost before = self.record_list();
                let ghost w = self.windows();
                let c = self.config;
                let mut entry = self.records.remove(i);
                entry.record.cleanup(c.window_duration, now);
                let n = entry.record.request_count();
                self.records.insert(i, entry);
                proof {
                    let v = RecordView { identifier: entry.identifier@, times: entry.record@ };
                    assert(self.record_list() =~= before.update(i as int, v));
                    lemma_keyed_update(before, record_key(), i as int, v);
                    assert(self.windows() =~= w.insert(v.identifier, v.times));
                }
                n
            },
        }
    }

    /// How many more requests `identifier` may make at `now`.
    pub fn get_remaining_requests(&mut self, identifier: &str, now: u64) -> (r: usize)
        requires
            old(self).wf(),
        ensures
            final(self).wf(),
            final(self).config() == old(self).config(),
            !old(self).windows().contains_key(identifier@) ==> final(self).windows() == old(self).windows(),
            old(self).windows().contains_key(identifier@) ==> final(self).windows() == old(self).windows().insert(
                identifier@,
                live_requests(old(self).windows()[identifier@], now, old(self).config().window_duration),
            ),
            ({
                let n = live_requests(old(self).times_of(identifier@), now, old(self).config().window_duration).len();
                r == if n >= old(self).config().max_requests { 0 } else { old(self).config().max_requests - n }
            }),
    {
        let count = self.get_request_count(identifier, now);
        self.config.max_requests.saturating_sub(count)
    }

    /// Forgets every request of `identifier`.
    pub fn reset(&mut self, identifier: &str)
        requires
            old(self).wf(),
        ensures
            final(self).wf(),
            final(self).config() == old(self).config(),
            final(self).windows() == old(self).windows().remove(identifier@),
    {
        match self.find(identifier) {
            None => {
                proof {
                    assert(self.windows() =~= self.windows().remove(identifier@));
                }
            },
            Some(i) => {
                let ghost before = self.record_list();
                self.records.remove(i);
                proof {
                    assert(self.record_list() =~= before.remove(i as int));
                    lemma_keyed_remove(before, record_key(), i as int);
                    assert(self.windows() =~= keyed(before, record_key()).map_values(|r: RecordView| r.times).remove(identifier@));
                }
            },
        }
    }

    /// Forgets the requests that no longer count at `now` and stops tracking the
    /// identifiers left with none; returns how many identifiers were dropped.
    pub fn cleanup_expired(&mut self, now: u64) -> (r: usize)
        requires
            old(self).wf(),
        ensures
            final(self).wf(),
            final(self).config() == old(self).config(),
            r == old(self).record_list().len() - final(self).record_list().len(),
            forall|k: Seq<char>|
                #[trigger] final(self).windows().contains_key(k) <==> old(self).windows().contains_key(k)
                    && live_requests(old(self).windows()[k], now, old(self).config().window_duration).len() > 0,
            forall|k: Seq<char>|
                #[trigger] final(self).windows().contains_key(k) ==> final(self).windows()[k]
                    == live_requests(old(self).windows()[k], now, old(self).config().window_duration),
    {
        let ghost orig = self.record_list();
        let window = self.config.window_duration;
        let mut rest: Vec<IdRecord> = Vec::new();
        std::mem::swap(&mut self.records, &mut rest);
        let ghost pruned = orig.map_values(|v: RecordView| RecordView { identifier: v.identifier, times: live_requests(v.times, now, window) });
        let n = rest.len();
        let mut i: usize = 0;
        while i < n
            invariant
                n == orig.len(),
                i <= n,
                rest@.len() == n - i,
                forall|j: int| 0 <= j < n - i ==> (RecordView { identifier: #[trigger] rest@[j].identifier@, times: rest@[j].record@ }) == orig[i + j],
                self.config == old(self).config(),
                window == self.config.window_duration,
                pruned == orig.map_values(|v: RecordView| RecordView { identifier: v.identifier, times: live_requests(v.times, now, window) }),
                self.record_list() == pruned.take(i as int).filter(has_requests()),
            decreases n - i,
        {
            let ghost rest_before = rest@;
            let mut entry = rest.remove(0);
            proof {
                assert((RecordView { identifier: entry.identifier@, times: entry.record@ }) == orig[i as int]);
                assert forall|j: int| 0 <= j < n - (i + 1) implies (RecordView { identifier: #[trigger] rest@[j].identifier@, times: rest@[j].record@ }) == orig[(i + 1) + j] by {
                    assert(rest@[j] == rest_before[j + 1]);
                }
            }
            entry.record.cleanup(window, now);
            let ghost v = RecordView { identifier: entry.identifier@, times: entry.record@ };
            proof {
                assert(v == pruned[i as int]);
                assert(pruned.take(i + 1) =~= pruned.take(i as int).push(v));
                pruned.take(i as int).lemma_filter_push(v, has_requests());
            }
            if entry.record.request_count() > 0 {
                let ghost before = self.record_list();
                self.records.push(entry);
                proof {
                    assert(self.record_list() =~= before.push(v));
                }
            }
            i = i + 1;
        }
        proof {
            assert(pruned.take(n as int) =~= pruned);
            lemma_pruned_keys(orig, now, window);
            lemma_keyed_filter(pruned, record_key(), has_requests());
            pruned.lemma_filter_len(has_requests());
            assert forall|k: Seq<char>| #[trigger] keyed(pruned, record_key()).contains_key(k) <==> keyed(orig, record_key()).contains_key(k) by {
                lemma_keyed_dom(pruned, record_key(), k);
                lemma_keyed_dom(orig, record_key(), k);
                if keyed(orig, record_key()).contains_key(k) {
                    let j = choose|j: int| 0 <= j < orig.len() && record_key()(orig[j]) == k;
                    assert(record_key()(pruned[j]) == k);
                }
                if keyed(pruned, record_key()).contains_key(k) {
                    let j = choose|j: int| 0 <= j < pruned.len() && record_key()(pruned[j]) == k;
                    assert(record_key()(orig[j]) == k);
                }
            }
            assert forall|k: Seq<char>| #[trigger] keyed(orig, record_key()).contains_key(k) implies keyed(pruned, record_key())[k].times == live_requests(keyed(orig, record_key())[k].times, now, window) by {
                lemma_keyed_dom(orig, record_key(), k);
                let j = choose|j: int| 0 <= j < orig.len() && record_key()(orig[j]) == k;
                lemma_keyed_value(orig, record_key(), j);
                lemma_keyed_value(pruned, record_key(), j);
            }
        }
        (n - self.records.len()) as usize
    }

    /// Counts over the tracked identifiers, as recorded (not pruned at any time).
    pub fn get_stats(&self) -> (r: RateLimiterStats)
        ensures
            r.total_identifiers == self.record_list().len(),
            r.total_requests == if request_total(self.record_list()) > usize::MAX {
                usize::MAX as nat
            } else {
                request_total(self.record_list())
            },
            r.max_requests == self.config().max_requests,
            r.window_duration_seconds == self.config().window_duration / 1000,
    {
        let ghost v = self.record_list();
        let mut total: usize = 0;
        let mut i: usize = 0;
        while i < self.records.len()
            invariant
                v == self.record_list(),
                i <= v.len(),
                total == if request_total(v.take(i as int)) > usize::MAX {
                    usize::MAX as nat
                } else {
                    request_total(v.take(i as int))
                },
            decreases v.len() - i,
        {
            proof {
                assert(v.take(i + 1).drop_last() =~= v.take(i as int));
                assert(v[i as int].times == self.records@[i as int].record@);
            }
            total = total.saturating_add(self.records[i].record.request_count());
            i = i + 1;
        }
        proof {
            assert(v.take(i as int) =~= v);
        }
        RateLimiterStats {
            total_identifiers: self.records.len(),
            total_requests: total,
            max_requests: self.config.max_requests,
            window_duration_seconds: self.config.window_duration / 1000,
        }
    }
}

/// Pruning the times keeps every identifier, so identifiers stay unique.
pub proof fn lemma_pruned_keys(s: Seq<RecordView>, now: u64, window: u64)
    requires
        keys_unique(s, record_key()),
    ensures
        keys_unique(
            s.map_values(|v: RecordView| RecordView { identifier: v.identifier, times: live_requests(v.times, now, window) }),
            record_key(),
        ),
{
    let m = s.map_values(|v: RecordView| RecordView { identifier: v.identifier, times: live_requests(v.times, now, window) });
    assert forall|a: int, b: int|
        0 <= a < m.len() && 0 <= b < m.len() && a != b implies #[trigger] record_key()(m[a])
        != #[trigger] record_key()(m[b]) by {
        assert(record_key()(m[a]) == record_key()(s[a]));
        assert(record_key()(m[b]) == record_key()(s[b]));
    }
}

} // verus!

verus! {

/// When every recorded time still counts, nothing is forgotten.
pub proof fn lemma_all_live(ts: Seq<u64>, now: u64, window: u64)
    requires
        forall|i: int| 0 <= i < ts.len() ==> in_window(#[trigger] ts[i], now, window),
    ensures
        live_requests(ts, now, window) == ts,
    decreases ts.len(),
{
    reveal(Seq::filter);
    if ts.len() > 0 {
        let d = ts.drop_last();
        assert forall|i: int| 0 <= i < d.len() implies in_window(#[trigger] d[i], now, window) by {
            assert(d[i] == ts[i]);
        }
        lemma_all_live(d, now, window);
        assert(ts =~= d.push(ts.last()));
    }
}

/// When no recorded time still counts, everything is forgotten.
pub proof fn lemma_none_live(ts: Seq<u64>, now: u64, window: u64)
    requires
        forall|i: int| 0 <= i < ts.len() ==> !in_window(#[trigger] ts[i], now, window),
    ensures
        live_requests(ts, now, window).len() == 0,
    decreases ts.len(),
{
    reveal(Seq::filter);
    if ts.len() > 0 {
        let d = ts.drop_last();
        assert forall|i: int| 0 <= i < d.len() implies !in_window(#[trigger] d[i], now, window) by {
            assert(d[i] == ts[i]);
        }
        lemma_none_live(d, now, window);
    }
}

/// Checks within one window starting from recorded times `ts` that all lie in that
/// window no later than the first check: the `j`-th check passes exactly when fewer
/// than `max_requests` requests would then be recorded.
pub proof fn lemma_run_within_window(c: RateLimitConfig, ts: Seq<u64>, times: Seq<u64>, t0: u64)
    requires
        forall|i: int| 0 <= i < ts.len() ==> t0 <= #[trigger] ts[i],
        times.len() > 0 ==> forall|i: int| 0 <= i < ts.len() ==> #[trigger] ts[i] <= times[0],
        forall|i: int, j: int| 0 <= i <= j < times.len() ==> #[trigger] times[i] <= #[trigger] times[j],
        forall|i: int| 0 <= i < times.len() ==> t0 <= #[trigger] times[i] && times[i] - t0 < c.window_duration,
    ensures
        run_checks(ts, times, c).len() == times.len(),
        forall|j: int| 0 <= j < times.len() ==> #[trigger] run_checks(ts, times, c)[j] == (ts.len() + j < c.max_requests),
    decreases times.len(),
{
    if times.len() > 0 {
        let now = times[0];
        assert forall|i: int| 0 <= i < ts.len() implies in_window(#[trigger] ts[i], now, c.window_duration) by {
            assert(t0 <= times[0]);
        }
        lemma_all_live(ts, now, c.window_duration);
        let (ok, next) = check_step(ts, now, c);
        let rest = times.drop_first();
        assert forall|i: int| 0 <= i < next.len() implies t0 <= #[trigger] next[i] by {
            if i < ts.len() {
                assert(next[i] == ts[i]);
            }
        }
        if rest.len() > 0 {
            assert(rest[0] == times[1]);
            assert(times[0] <= times[1]);
            assert forall|i: int| 0 <= i < next.len() implies #[trigger] next[i] <= rest[0] by {
                if i < ts.len() {
                    assert(next[i] == ts[i]);
                }
            }
        }
        assert forall|i: int, j: int| 0 <= i <= j < rest.len() implies #[trigger] rest[i] <= #[trigger] rest[j] by {
            assert(rest[i] == times[i + 1] && rest[j] == times[j + 1]);
        }
        assert forall|i: int| 0 <= i < rest.len() implies t0 <= #[trigger] rest[i] && rest[i] - t0 < c.window_duration by {
            assert(rest[i] == times[i + 1]);
        }
        lemma_run_within_window(c, next, rest, t0);
        let out = run_checks(ts, times, c);
        assert forall|j: int| 0 <= j < times.len() implies #[trigger] out[j] == (ts.len() + j < c.max_requests) by {
            if j > 0 {
                assert(out[j] == run_checks(next, rest, c)[j - 1]);
            }
        }
    }
}

/// Sliding window: of requests made within one window by an identifier with no
/// requests counting, exactly the first `max_requests` are allowed and the rest refused.
pub proof fn window_allows_exactly_max(c: RateLimitConfig, times: Seq<u64>)
    requires
        forall|i: int, j: int| 0 <= i <= j < times.len() ==> #[trigger] times[i] <= #[trigger] times[j],
        times.len() > 0 ==> times.last() - times[0] < c.window_duration,
    ensures
        run_checks(Seq::empty(), times, c).len() == times.len(),
        forall|j: int| 0 <= j < times.len() ==> #[trigger] run_checks(Seq::empty(), times, c)[j] == (j < c.max_requests),
{
    if times.len() > 0 {
        assert forall|i: int| 0 <= i < times.len() implies times[0] <= #[trigger] times[i] && times[i] - times[0] < c.window_duration by {
            assert(times[i] <= times[times.len() - 1]);
        }
        lemma_run_within_window(c, Seq::empty(), times, times[0]);
    }
}

/// Once a whole window has passed since every recorded request, a request is allowed
/// again (under any limit above zero).
pub proof fn window_reopens(c: RateLimitConfig, ts: Seq<u64>, now: u64)
    requires
        c.max_requests > 0,
        forall|i: int| 0 <= i < ts.len() ==> #[trigger] ts[i] <= now && now - ts[i] >= c.window_duration,
    ensures
        check_step(ts, now, c).0,
{
    lemma_none_live(ts, now, c.window_duration);
}

} // verus!
