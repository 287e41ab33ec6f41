//! The price monitor: alerts by id, their checks against the latest
//! verified price, and the price sample each product is checked against.
use vstd::prelude::*;
use crate::alerts::{alert_failure_of, AlertError, AlertFailure};
use crate::error::now_unix_seconds;
use crate::models::{is_verified, PriceAlert, PriceRecord};
use crate::table::{
    copy_flagged, drop_key, find_key, flagged, has_key, keys_distinct, lemma_flagged_filter, put,
    put_record, take, Record,
};
use crate::text::{contains_seq, owned, str_contains, str_eq};
use crate::utils::crypto::{new_uuid_string, uuid_text};

verus! {

broadcast use vstd::string::group_string_axioms;

/// Active alerts.
pub open spec fn active() -> spec_fn(PriceAlert) -> bool {
    |a: PriceAlert| a.is_active
}

/// Active alerts of one user.
pub open spec fn active_alert_of(user_id: Seq<char>) -> spec_fn(PriceAlert) -> bool {
    |a: PriceAlert| a.user_id@ == user_id && a.is_active
}

/// The base price of the sample a product is checked against, in
/// hundredths: by words or digits in its id.
pub open spec fn base_price(product_id: Seq<char>) -> i64 {
    if contains_seq(product_id, "cola"@) || contains_seq(product_id, "1"@) {
        12000
    } else if contains_seq(product_id, "chips"@) || contains_seq(product_id, "2"@) {
        20000
    } else if contains_seq(product_id, "water"@) || contains_seq(product_id, "3"@) {
        8000
    } else {
        15000
    }
}

/// The `i`-th price of a product's sample: the base moved by ten units a
/// step, never below fifty.
pub open spec fn sample_price(base: int, i: int) -> int {
    if base + (i - 2) * 1000 > 5000 {
        base + (i - 2) * 1000
    } else {
        5000
    }
}

/// The sample a product is checked against at `now`: five verified prices
/// an hour apart, the newest first, at stores one to five.
pub open spec fn sample_ok(s: Seq<PriceRecord>, product_id: Seq<char>, now: int) -> bool {
    let base = base_price(product_id) as int;
    &&& s.len() == 5
    &&& forall|i: int|
        0 <= i < 5 ==> {
            let p = #[trigger] s[i];
            &&& p.id matches Some(x) && uuid_text(x@)
            &&& p.product_id matches Some(x) && x@ == product_id
            &&& p.store_id@ == "store_"@ + crate::utils::numbers::nat_decimal((i + 1) as nat)
            &&& p.user_id matches Some(u) && u@ == "system"@
            &&& p.price == sample_price(base, i)
            &&& p.timestamp == now - 3600 * i
            &&& p.is_on_sale == (sample_price(base, i) < base)
            &&& p.receipt_image is None
            &&& is_verified(p)
        }
}

/// The price of the last verified record with the latest time.
pub open spec fn latest_verified_price(s: Seq<PriceRecord>) -> Option<i64> {
    match latest_verified_price_rec(s) {
        Some(m) => Some(m.price),
        None => None,
    }
}

/// Of the verified records, the last one with the latest time.
pub open spec fn latest_verified_price_rec(s: Seq<PriceRecord>) -> Option<PriceRecord>
    decreases s.len(),
{
    if s.len() == 0 {
        None
    } else {
        let r = latest_verified_price_rec(s.drop_last());
        if is_verified(s.last()) && (r is None || s.last().timestamp >= r->Some_0.timestamp) {
            Some(s.last())
        } else {
            r
        }
    }
}

/// `after` is `before` with a new sample at `now`, added once, for each
/// product of an active alert among the first `n` of `alerts` that `before`
/// has no sample of; every such product then has a sample.
pub open spec fn samples_added(
    before: Seq<(Seq<char>, Seq<PriceRecord>)>,
    after: Seq<(Seq<char>, Seq<PriceRecord>)>,
    alerts: Seq<PriceAlert>,
    n: int,
    now: int,
) -> bool {
    &&& before.len() <= after.len()
    &&& after.subrange(0, before.len() as int) == before
    &&& forall|k: int|
        before.len() <= k < after.len() ==> {
            &&& sample_ok((#[trigger] after[k]).1, after[k].0, now)
            &&& !cached(before, after[k].0)
            &&& exists|j: int| 0 <= j < n && (#[trigger] alerts[j]).is_active && alerts[j].product_id@ == after[k].0
        }
    &&& forall|k1: int, k2: int| before.len() <= k1 < k2 < after.len() ==> (#[trigger] after[k1]).0 != (#[trigger] after[k2]).0
    &&& forall|j: int| 0 <= j < n && (#[trigger] alerts[j]).is_active ==> cached(after, alerts[j].product_id@)
}

/// The cache holds a sample of `pid`.
pub open spec fn cached(c: Seq<(Seq<char>, Seq<PriceRecord>)>, pid: Seq<char>) -> bool {
    exists|k: int| 0 <= k < c.len() && (#[trigger] c[k]).0 == pid
}

/// Where the first sample of `pid` stands in the cache.
pub open spec fn first_slot(c: Seq<(Seq<char>, Seq<PriceRecord>)>, pid: Seq<char>) -> int {
    choose|k: int| 0 <= k < c.len() && (#[trigger] c[k]).0 == pid && forall|m: int| 0 <= m < k ==> (#[trigger] c[m]).0 != pid
}

/// The price of the newest record of a new sample of `pid`.
pub open spec fn fresh_price(pid: Seq<char>) -> i64 {
    sample_price(base_price(pid) as int, 0) as i64
}

/// The price an alert on `pid` is checked at, given the cache before the
/// check: the latest verified price of its first cached sample, or that of
/// a new sample.
pub open spec fn checked_price(c: Seq<(Seq<char>, Seq<PriceRecord>)>, pid: Seq<char>) -> Option<i64> {
    if cached(c, pid) {
        latest_verified_price(c[first_slot(c, pid)].1)
    } else {
        Some(fresh_price(pid))
    }
}

/// The first sample of a cached key is the first entry with that key.
pub proof fn lemma_first_slot(c: Seq<(Seq<char>, Seq<PriceRecord>)>, pid: Seq<char>, k: int)
    requires
        0 <= k < c.len(),
        c[k].0 == pid,
        forall|m: int| 0 <= m < k ==> (#[trigger] c[m]).0 != pid,
    ensures
        first_slot(c, pid) == k,
{
    let f = first_slot(c, pid);
    assert(0 <= f < c.len() && c[f].0 == pid && forall|m: int| 0 <= m < f ==> (#[trigger] c[m]).0 != pid);
    if f < k {
        assert(c[f].0 != pid);
    } else if f > k {
        assert(c[k].0 != pid);
    }
}

/// The cache has a first entry for each key it holds.
pub proof fn lemma_first_slot_exists(c: Seq<(Seq<char>, Seq<PriceRecord>)>, pid: Seq<char>)
    requires
        cached(c, pid),
    ensures
        0 <= first_slot(c, pid) < c.len(),
        c[first_slot(c, pid)].0 == pid,
        forall|m: int| 0 <= m < first_slot(c, pid) ==> (#[trigger] c[m]).0 != pid,
    decreases c.len(),
{
    if c.last().0 == pid && !cached(c.drop_last(), pid) {
        assert forall|m: int| 0 <= m < c.len() - 1 implies (#[trigger] c[m]).0 != pid by {
            if c[m].0 == pid {
                assert(c.drop_last()[m].0 == pid);
            }
        }
        lemma_first_slot(c, pid, c.len() - 1);
    } else {
        let k = choose|k: int| 0 <= k < c.len() && (#[trigger] c[k]).0 == pid;
        if k == c.len() - 1 {
            assert(c.last().0 == pid);
            assert(cached(c.drop_last(), pid));
        } else {
            assert(c.drop_last()[k].0 == pid);
        }
        let d = c.drop_last();
        lemma_first_slot_exists(d, pid);
        let f = first_slot(d, pid);
        assert forall|m: int| 0 <= m < f implies (#[trigger] c[m]).0 != pid by {
            assert(d[m] == c[m]);
        }
        lemma_first_slot(c, pid, f);
    }
}

/// The newest record of a sample is the first, so its price is the latest.
proof fn lemma_sample_latest_prefix(s: Seq<PriceRecord>, pid: Seq<char>, now: int, n: int)
    requires
        sample_ok(s, pid, now),
        1 <= n <= 5,
    ensures
        latest_verified_price_rec(s.subrange(0, n)) == Some(s[0]),
    decreases n,
{
    let p = s.subrange(0, n);
    assert(p.last() == s[n - 1]);
    assert(is_verified(s[n - 1]) && s[n - 1].timestamp == now - 3600 * (n - 1));
    assert(s[0].timestamp == now);
    if n == 1 {
        assert(p.drop_last() =~= Seq::<PriceRecord>::empty());
        assert(latest_verified_price_rec(p.drop_last()) is None);
        assert(latest_verified_price_rec(p) == Some(p.last()));
    } else {
        assert(p.drop_last() =~= s.subrange(0, n - 1));
        lemma_sample_latest_prefix(s, pid, now, n - 1);
        let r = latest_verified_price_rec(p.drop_last());
        assert(r == Some(s[0]));
        assert(!(p.last().timestamp >= r->Some_0.timestamp));
        assert(latest_verified_price_rec(p) == r);
    }
}

/// The latest verified price of a new sample is its first record's.
pub proof fn lemma_sample_latest(s: Seq<PriceRecord>, pid: Seq<char>, now: int)
    requires
        sample_ok(s, pid, now),
    ensures
        latest_verified_price(s) == Some(fresh_price(pid)),
{
    lemma_sample_latest_prefix(s, pid, now, 5);
    assert(s.subrange(0, 5) =~= s);
    assert(s[0] == s[0]);
}

/// A sample found for an active alert is checked at `checked_price`, and
/// the cache after it keeps `samples_added` one alert further.
proof fn lemma_checked_step(
    oc: Seq<(Seq<char>, Seq<PriceRecord>)>,
    cur: Seq<(Seq<char>, Seq<PriceRecord>)>,
    next: Seq<(Seq<char>, Seq<PriceRecord>)>,
    alerts: Seq<PriceAlert>,
    i: int,
    pid: Seq<char>,
    sample: Seq<PriceRecord>,
    now: int,
)
    requires
        0 <= i < alerts.len(),
        alerts[i].is_active,
        alerts[i].product_id@ == pid,
        samples_added(oc, cur, alerts, i, now),
        cached(cur, pid) ==> next == cur && sample == cur[first_slot(cur, pid)].1,
        !cached(cur, pid) ==> sample_ok(sample, pid, now) && next == cur.push((pid, sample)),
    ensures
        latest_verified_price(sample) == checked_price(oc, pid),
        samples_added(oc, next, alerts, i + 1, now),
{
    assert forall|m: int| 0 <= m < oc.len() implies cur[m] == oc[m] by {
        assert(cur.subrange(0, oc.len() as int)[m] == cur[m]);
    }
    if cached(cur, pid) {
        if cached(oc, pid) {
            lemma_first_slot_exists(oc, pid);
            let f = first_slot(oc, pid);
            assert forall|m: int| 0 <= m < f implies (#[trigger] cur[m]).0 != pid by {
                assert(cur[m] == oc[m]);
            }
            assert(cur[f] == oc[f]);
            lemma_first_slot(cur, pid, f);
        } else {
            lemma_first_slot_exists(cur, pid);
            let f = first_slot(cur, pid);
            if f < oc.len() {
                assert(cur[f] == oc[f]);
                assert(cached(oc, pid));
            }
            assert(sample_ok(cur[f].1, cur[f].0, now));
            lemma_sample_latest(cur[f].1, pid, now);
        }
        assert forall|j: int| 0 <= j < i + 1 && (#[trigger] alerts[j]).is_active implies cached(next, alerts[j].product_id@) by {
            if j < i {
                assert(cached(cur, alerts[j].product_id@));
            }
        }
        assert forall|k: int| oc.len() <= k < next.len() implies {
            &&& sample_ok((#[trigger] next[k]).1, next[k].0, now)
            &&& !cached(oc, next[k].0)
            &&& exists|j: int| 0 <= j < i + 1 && (#[trigger] alerts[j]).is_active && alerts[j].product_id@ == next[k].0
        } by {
            let j = choose|j: int| 0 <= j < i && (#[trigger] alerts[j]).is_active && alerts[j].product_id@ == cur[k].0;
            assert(alerts[j].is_active);
        }
    } else {
        if cached(oc, pid) {
            let k = choose|k: int| 0 <= k < oc.len() && (#[trigger] oc[k]).0 == pid;
            assert(cur[k] == oc[k]);
            assert(cached(cur, pid));
        }
        lemma_sample_latest(sample, pid, now);
        assert(next.subrange(0, oc.len() as int) =~= oc) by {
            assert forall|m: int| 0 <= m < oc.len() implies next.subrange(0, oc.len() as int)[m] == oc[m] by {
                assert(next[m] == cur[m]);
            }
        }
        assert forall|k: int| oc.len() <= k < next.len() implies {
            &&& sample_ok((#[trigger] next[k]).1, next[k].0, now)
            &&& !cached(oc, next[k].0)
            &&& exists|j: int| 0 <= j < i + 1 && (#[trigger] alerts[j]).is_active && alerts[j].product_id@ == next[k].0
        } by {
            if k < cur.len() {
                assert(next[k] == cur[k]);
                let j = choose|j: int| 0 <= j < i && (#[trigger] alerts[j]).is_active && alerts[j].product_id@ == cur[k].0;
                assert(alerts[j].is_active);
            } else {
                assert(next[k] == (pid, sample));
                assert(alerts[i].is_active);
            }
        }
        assert forall|k1: int, k2: int| oc.len() <= k1 < k2 < next.len() implies (#[trigger] next[k1]).0 != (#[trigger] next[k2]).0 by {
            assert(next[k1] == cur[k1]);
            if k2 < cur.len() {
                assert(next[k2] == cur[k2]);
            } else {
                assert(next[k2].0 == pid);
                if cur[k1].0 == pid {
                    assert(cached(cur, pid));
                }
            }
        }
        assert forall|j: int| 0 <= j < i + 1 && (#[trigger] alerts[j]).is_active implies cached(next, alerts[j].product_id@) by {
            if j < i {
                assert(cached(cur, alerts[j].product_id@));
                let k = choose|k: int| 0 <= k < cur.len() && (#[trigger] cur[k]).0 == alerts[j].product_id@;
                assert(next[k] == cur[k]);
            } else {
                assert(next[cur.len() as int].0 == pid);
            }
        }
    }
}

/// An inactive alert leaves `samples_added` true one alert further.
proof fn lemma_inactive_step(
    oc: Seq<(Seq<char>, Seq<PriceRecord>)>,
    cur: Seq<(Seq<char>, Seq<PriceRecord>)>,
    alerts: Seq<PriceAlert>,
    i: int,
    now: int,
)
    requires
        0 <= i < alerts.len(),
        !alerts[i].is_active,
        samples_added(oc, cur, alerts, i, now),
    ensures
        samples_added(oc, cur, alerts, i + 1, now),
{
    assert forall|k: int| oc.len() <= k < cur.len() implies {
        &&& sample_ok((#[trigger] cur[k]).1, cur[k].0, now)
        &&& !cached(oc, cur[k].0)
        &&& exists|j: int| 0 <= j < i + 1 && (#[trigger] alerts[j]).is_active && alerts[j].product_id@ == cur[k].0
    } by {
        let j = choose|j: int| 0 <= j < i && (#[trigger] alerts[j]).is_active && alerts[j].product_id@ == cur[k].0;
        assert(alerts[j].is_active);
    }
}

/// What checking the active alerts at `now` gives and leaves: one result
/// per active alert, in order, with the price it is checked at and whether
/// it fires; the cache with a new sample for each product it lacked.
pub open spec fn checked_at(
    alerts: Seq<PriceAlert>,
    before: Seq<(Seq<char>, Seq<PriceRecord>)>,
    after: Seq<(Seq<char>, Seq<PriceRecord>)>,
    v: Seq<MonitoringResult>,
    now: i64,
) -> bool {
    &&& v.len() == alerts.filter(active()).len()
    &&& forall|k: int|
        0 <= k < v.len() ==> {
            let a = alerts.filter(active())[k];
            let m = #[trigger] v[k];
            &&& m.alert_id@ == a.id@
            &&& m.product_id@ == a.product_id@
            &&& m.target_price == a.target_price
            &&& m.timestamp == now
            &&& m.error is None
            &&& m.current_price == checked_price(before, a.product_id@)
            &&& m.triggered == (m.current_price matches Some(p) && p <= a.target_price)
        }
    &&& samples_added(before, after, alerts, alerts.len() as int, now as int)
}

/// The outcome of checking one alert.
#[derive(Debug, Clone)]
pub struct MonitoringResult {
    pub alert_id: String,
    pub product_id: String,
    pub triggered: bool,
    pub current_price: Option<i64>,
    pub target_price: i64,
    pub timestamp: i64,
    pub error: Option<String>,
}

/// The alerts, whether monitoring runs, the interval between checks in
/// seconds, and the price sample kept for each checked product.
pub struct PriceMonitor {
    alerts: Vec<PriceAlert>,
    is_running: bool,
    check_interval_secs: u64,
    price_cache: Vec<(String, Vec<PriceRecord>)>,
}

impl PriceMonitor {
    /// The alerts, in the order they were added.
    pub closed spec fn alerts(&self) -> Seq<PriceAlert> {
        self.alerts@
    }

    /// Whether monitoring runs.
    pub closed spec fn running(&self) -> bool {
        self.is_running
    }

    /// Seconds between checks.
    pub closed spec fn interval(&self) -> u64 {
        self.check_interval_secs
    }

    /// The cached samples: product id and sample.
    pub closed spec fn cache(&self) -> Seq<(Seq<char>, Seq<PriceRecord>)> {
        self.price_cache@.map_values(|e: (String, Vec<PriceRecord>)| (e.0@, e.1@))
    }

    /// No two alerts share an id.
    pub open spec fn wf(&self) -> bool {
        keys_distinct(self.alerts())
    }

    /// A stopped monitor without alerts, checking every five minutes.
    pub fn new() -> (r: Self)
        ensures
            r.wf(),
            !r.running(),
            r.alerts().len() == 0,
            r.interval() == 300,
            r.cache().len() == 0,
    {
        let r = PriceMonitor { alerts: Vec::new(), is_running: false, check_interval_secs: 300, price_cache: Vec::new() };
        assert(r.cache() =~= Seq::<(Seq<char>, Seq<PriceRecord>)>::empty());
        r
    }

    /// Start monitoring; an error when it runs already. The caller starts
    /// the thread that wakes every interval.
    pub fn start(&mut self) -> (r: Result<(), AlertError>)
        requires
            old(self).wf(),
        ensures
            final(self).wf(),
            old(self).running() ==> (r matches Err(e) && alert_failure_of(e) == AlertFailure::MonitoringFailed(
                "Monitor is already running"@,
            )),
            !old(self).running() ==> r is Ok,
            final(self).running(),
            final(self).alerts() == old(self).alerts(),
            final(self).interval() == old(self).interval(),
            final(self).cache() == old(self).cache(),
    {
        if self.is_running {
            return Err(AlertError::MonitoringFailed(owned("Monitor is already running")));
        }
        self.is_running = true;
        Ok(())
    }

    /// Stop monitoring.
    pub fn stop(&mut self) -> (r: Result<(), AlertError>)
        requires
            old(self).wf(),
        ensures
            final(self).wf(),
            r is Ok,
            !final(self).running(),
            final(self).alerts() == old(self).alerts(),
            final(self).interval() == old(self).interval(),
            final(self).cache() == old(self).cache(),
    {
        self.is_running = false;
        Ok(())
    }

    /// Whether monitoring runs.
    pub fn is_running(&self) -> (b: bool)
        ensures
            b == self.running(),
    {
        self.is_running
    }

    /// Add an alert with a positive target price; one with the same id is
    /// replaced.
    pub fn add_alert(&mut self, alert: PriceAlert) -> (r: Result<(), AlertError>)
        requires
            old(self).wf(),
        ensures
            final(self).wf(),
            final(self).running() == old(self).running(),
            final(self).interval() == old(self).interval(),
            final(self).cache() == old(self).cache(),
            alert.target_price <= 0 ==> (r matches Err(e) && alert_failure_of(e) == AlertFailure::InvalidThreshold(
                alert.target_price,
            ) && final(self).alerts() == old(self).alerts()),
            alert.target_price > 0 ==> r is Ok && final(self).alerts() == put_record(old(self).alerts(), alert),
    {
        if alert.target_price <= 0 {
            return Err(AlertError::InvalidThreshold(alert.target_price));
        }
        put(&mut self.alerts, alert);
        Ok(())
    }

    /// Remove the alert with this id.
    pub fn remove_alert(&mut self, alert_id: &str) -> (r: Result<(), AlertError>)
        requires
            old(self).wf(),
        ensures
            final(self).wf(),
            final(self).running() == old(self).running(),
            final(self).interval() == old(self).interval(),
            final(self).cache() == old(self).cache(),
            final(self).alerts() == drop_key(old(self).alerts(), alert_id@),
            has_key(old(self).alerts(), alert_id@) ==> r is Ok,
            !has_key(old(self).alerts(), alert_id@) ==> (r matches Err(e) && alert_failure_of(e)
                == AlertFailure::AlertNotFound(alert_id@)),
    {
        match take(&mut self.alerts, alert_id) {
            Some(_) => Ok(()),
            None => Err(AlertError::AlertNotFound(owned(alert_id))),
        }
    }

    fn copy_selected(&self, keep: &Vec<bool>, pred: Ghost<spec_fn(PriceAlert) -> bool>) -> (r: Vec<PriceAlert>)
        requires
            keep@.len() == self.alerts@.len(),
            forall|j: int| 0 <= j < keep@.len() ==> #[trigger] keep@[j] == pred@(self.alerts@[j]),
        ensures
            r@ == self.alerts().filter(pred@),
    {
        proof {
            lemma_flagged_filter(self.alerts@, keep@, pred@);
        }
        let out = copy_flagged(&self.alerts, keep);
        assert forall|j: int| 0 <= j < out@.len() implies out@[j] == flagged(self.alerts@, keep@)[j] by {
            assert(out@[j].same(&flagged(self.alerts@, keep@)[j]));
        }
        assert(out@ =~= self.alerts().filter(pred@));
        out
    }

    /// Copies of a user's active alerts.
    pub fn get_user_alerts(&self, user_id: &str) -> (r: Result<Vec<PriceAlert>, AlertError>)
        ensures
            r matches Ok(v) && v@ == self.alerts().filter(active_alert_of(user_id@)),
    {
        let mut keep: Vec<bool> = Vec::new();
        let mut i: usize = 0;
        while i < self.alerts.len()
            invariant
                i <= self.alerts@.len(),
                keep@.len() == i,
                forall|j: int| 0 <= j < i ==> #[trigger] keep@[j] == (active_alert_of(user_id@))(self.alerts@[j]),
            decreases self.alerts.len() - i,
        {
            keep.push(str_eq(self.alerts[i].user_id.as_str(), user_id) && self.alerts[i].is_active);
            i = i + 1;
        }
        Ok(self.copy_selected(&keep, Ghost(active_alert_of(user_id@))))
    }

    /// Copies of all alerts.
    pub fn get_all_alerts(&self) -> (r: Result<Vec<PriceAlert>, AlertError>)
        ensures
            r matches Ok(v) && v@ == self.alerts(),
    {
        let mut out: Vec<PriceAlert> = Vec::new();
        let mut i: usize = 0;
        while i < self.alerts.len()
            invariant
                i <= self.alerts@.len(),
                out@ == self.alerts@.subrange(0, i as int),
            decreases self.alerts.len() - i,
        {
            out.push(self.alerts[i].duplicate());
            assert(out@ =~= self.alerts@.subrange(0, i + 1));
            i = i + 1;
        }
        assert(self.alerts@.subrange(0, self.alerts@.len() as int) =~= self.alerts@);
        Ok(out)
    }

    fn base_of(product_id: &str) -> (b: i64)
        ensures
            b == base_price(product_id@),
    {
        if str_contains(product_id, "cola") || str_contains(product_id, "1") {
            12000
        } else if str_contains(product_id, "chips") || str_contains(product_id, "2") {
            20000
        } else if str_contains(product_id, "water") || str_contains(product_id, "3") {
            8000
        } else {
            15000
        }
    }

    /// The sample a product is checked against at `now`.
    pub fn generate_mock_prices(product_id: &str, now: i64) -> (r: Vec<PriceRecord>)
        requires
            now >= i64::MIN + 4 * 3600,
        ensures
            sample_ok(r@, product_id@, now as int),
    {
        let base = Self::base_of(product_id);
        let mut out: Vec<PriceRecord> = Vec::new();
        let mut i: i64 = 0;
        while i < 5
            invariant
                0 <= i <= 5,
                base == base_price(product_id@),
                now >= i64::MIN + 4 * 3600,
                out@.len() == i,
                forall|k: int| 0 <= k < i ==> {
                    let p = #[trigger] out@[k];
                    &&& p.id matches Some(x) && uuid_text(x@)
                    &&& p.product_id matches Some(x) && x@ == product_id@
                    &&& p.store_id@ == "store_"@ + crate::utils::numbers::nat_decimal((k + 1) as nat)
                    &&& p.user_id matches Some(u) && u@ == "system"@
                    &&& p.price == sample_price(base as int, k)
                    &&& p.timestamp == now - 3600 * k
                    &&& p.is_on_sale == (sample_price(base as int, k) < base)
                    &&& p.receipt_image is None
                    &&& is_verified(p)
                },
            decreases 5 - i,
        {
            let moved = base + (i - 2) * 1000;
            let price = if moved > 5000 {
                moved
            } else {
                5000
            };
            let mut store = owned("store_");
            let digits = crate::utils::numbers::u64_decimal((i + 1) as u64);
            let ghost sbase = store@;
            let mut k: usize = 0;
            while k < digits.len()
                invariant
                    k <= digits@.len(),
                    store@ == sbase + digits@.subrange(0, k as int),
                decreases digits.len() - k,
            {
                crate::text::push_char(&mut store, digits[k]);
                assert(store@ =~= sbase + digits@.subrange(0, k + 1));
                k = k + 1;
            }
            assert(digits@.subrange(0, digits@.len() as int) =~= digits@);
            out.push(
                PriceRecord {
                    id: Some(new_uuid_string()),
                    product_id: Some(owned(product_id)),
                    store_id: store,
                    user_id: Some(owned("system")),
                    price,
                    timestamp: now - 3600 * i,
                    is_on_sale: price < base,
                    receipt_image: None,
                    verification_status: owned("verified"),
                },
            );
            i = i + 1;
        }
        out
    }

    fn latest_price(s: &Vec<PriceRecord>) -> (r: Option<i64>)
        ensures
            r == latest_verified_price(s@),
    {
        let mut best: Option<usize> = None;
        let mut i: usize = 0;
        while i < s.len()
            invariant
                i <= s@.len(),
                match best {
                    None => latest_verified_price_rec(s@.subrange(0, i as int)) is None,
                    Some(b) => b < i && latest_verified_price_rec(s@.subrange(0, i as int)) == Some(s@[b as int]),
                },
            decreases s.len() - i,
        {
            assert(s@.subrange(0, i + 1).drop_last() =~= s@.subrange(0, i as int));
            if str_eq(s[i].verification_status.as_str(), "verified") {
                match best {
                    None => {
                        best = Some(i);
                    },
                    Some(b) => {
                        if s[i].timestamp >= s[b].timestamp {
                            best = Some(i);
                        }
                    },
                }
            }
            i = i + 1;
        }
        assert(s@.subrange(0, s@.len() as int) =~= s@);
        match best {
            Some(b) => Some(s[b].price),
            None => None,
        }
    }

    /// The sample of a product: the cached one, or a new one cached now.
    fn sample_for(&mut self, product_id: &str, now: i64) -> (r: Vec<PriceRecord>)
        requires
            now >= i64::MIN + 4 * 3600,
        ensures
            final(self).alerts() == old(self).alerts(),
            final(self).running() == old(self).running(),
            final(self).interval() == old(self).interval(),
            cached(old(self).cache(), product_id@) ==> final(self).cache() == old(self).cache() && r@ == old(
                self,
            ).cache()[first_slot(old(self).cache(), product_id@)].1,
            !cached(old(self).cache(), product_id@) ==> sample_ok(r@, product_id@, now as int) && final(self).cache()
                == old(self).cache().push((product_id@, r@)),
    {
        let mut k: usize = 0;
        while k < self.price_cache.len()
            invariant
                k <= self.price_cache@.len(),
                forall|m: int| 0 <= m < k ==> (#[trigger] self.price_cache@[m]).0@ != product_id@,
            decreases self.price_cache.len() - k,
        {
            if str_eq(self.price_cache[k].0.as_str(), product_id) {
                let mut out: Vec<PriceRecord> = Vec::new();
                let cached = &self.price_cache[k].1;
                let mut j: usize = 0;
                while j < cached.len()
                    invariant
                        j <= cached@.len(),
                        out@ == cached@.subrange(0, j as int),
                    decreases cached.len() - j,
                {
                    out.push(cached[j].duplicate());
                    assert(out@ =~= cached@.subrange(0, j + 1));
                    j = j + 1;
                }
                assert(cached@.subrange(0, cached@.len() as int) =~= cached@);
                assert(self.cache()[k as int].0 == product_id@);
                proof {
                    assert forall|m: int| 0 <= m < k implies (#[trigger] self.cache()[m]).0 != product_id@ by {
                        assert(self.cache()[m].0 == self.price_cache@[m].0@);
                    }
                    lemma_first_slot(self.cache(), product_id@, k as int);
                }
                return out;
            }
            k = k + 1;
        }
        assert forall|m: int| 0 <= m < self.cache().len() implies (#[trigger] self.cache()[m]).0 != product_id@ by {
            assert(self.cache()[m].0 == self.price_cache@[m].0@);
        }
        let sample = Self::generate_mock_prices(product_id, now);
        let mut copy: Vec<PriceRecord> = Vec::new();
        let mut j: usize = 0;
        while j < sample.len()
            invariant
                j <= sample@.len(),
                copy@ == sample@.subrange(0, j as int),
            decreases sample.len() - j,
        {
            copy.push(sample[j].duplicate());
            assert(copy@ =~= sample@.subrange(0, j + 1));
            j = j + 1;
        }
        assert(sample@.subrange(0, sample@.len() as int) =~= sample@);
        let ghost before = self.cache();
        self.price_cache.push((owned(product_id), copy));
        assert(self.cache() =~= before.push((product_id@, sample@)));
        sample
    }

    /// Check every active alert at `now`, in order: its product's latest
    /// verified price, and whether the alert fires at it.
    pub fn check_all_alerts_at(&mut self, now: i64) -> (r: Result<Vec<MonitoringResult>, AlertError>)
        requires
            old(self).wf(),
            now >= i64::MIN + 4 * 3600,
        ensures
            final(self).wf(),
            final(self).alerts() == old(self).alerts(),
            final(self).running() == old(self).running(),
            final(self).interval() == old(self).interval(),
            r matches Ok(v) && checked_at(old(self).alerts(), old(self).cache(), final(self).cache(), v@, now),
    {
        let ghost alerts = self.alerts@;
        let ghost oc = self.cache();
        assert(oc.subrange(0, oc.len() as int) =~= oc);
        let ghost pred = active();
        let mut out: Vec<MonitoringResult> = Vec::new();
        let mut i: usize = 0;
        while i < self.alerts.len()
            invariant
                alerts == self.alerts@,
                pred == active(),
                keys_distinct(alerts),
                now >= i64::MIN + 4 * 3600,
                self.running() == old(self).running(),
                self.interval() == old(self).interval(),
                alerts == old(self).alerts(),
                i <= alerts.len(),
                oc == old(self).cache(),
                samples_added(oc, self.cache(), alerts, i as int, now as int),
                out@.len() == alerts.subrange(0, i as int).filter(pred).len(),
                forall|k: int|
                    0 <= k < out@.len() ==> {
                        let a = alerts.subrange(0, i as int).filter(pred)[k];
                        let m = #[trigger] out@[k];
                        &&& m.alert_id@ == a.id@
                        &&& m.product_id@ == a.product_id@
                        &&& m.target_price == a.target_price
                        &&& m.timestamp == now
                        &&& m.error is None
                        &&& m.current_price == checked_price(oc, a.product_id@)
                        &&& m.triggered == (m.current_price matches Some(p) && p <= a.target_price)
                    },
            decreases alerts.len() - i,
        {
            proof {
                reveal(Seq::filter);
            }
            assert(alerts.subrange(0, i + 1).drop_last() =~= alerts.subrange(0, i as int));
            assert(alerts.subrange(0, i + 1).last() == alerts[i as int]);
            if self.alerts[i].is_active {
                let pid = self.alerts[i].product_id.clone();
                let ghost cur = self.cache();
                let sample = self.sample_for(pid.as_str(), now);
                let current = Self::latest_price(&sample);
                proof {
                    lemma_checked_step(oc, cur, self.cache(), alerts, i as int, pid@, sample@, now as int);
                }
                let a = &self.alerts[i];
                let triggered = match current {
                    Some(p) => a.should_trigger(p),
                    None => false,
                };
                out.push(
                    MonitoringResult {
                        alert_id: a.id.clone(),
                        product_id: a.product_id.clone(),
                        triggered,
                        current_price: current,
                        target_price: a.target_price,
                        timestamp: now,
                        error: None,
                    },
                );
            } else {
                proof {
                    lemma_inactive_step(oc, self.cache(), alerts, i as int, now as int);
                }
            }
            i = i + 1;
        }
        assert(alerts.subrange(0, alerts.len() as int) =~= alerts);
        Ok(out)
    }

    /// Check every active alert now; see `check_all_alerts_at`.
    pub fn check_all_alerts(&mut self) -> (r: Result<Vec<MonitoringResult>, AlertError>)
        requires
            old(self).wf(),
        ensures
            final(self).wf(),
            final(self).alerts() == old(self).alerts(),
            final(self).running() == old(self).running(),
            final(self).interval() == old(self).interval(),
            r is Ok,
            exists|t: i64| #[trigger] checked_at(old(self).alerts(), old(self).cache(), final(self).cache(), r->Ok_0@, t),
    {
        let now = now_unix_seconds();
        let t = if now >= i64::MIN + 4 * 3600 {
            now
        } else {
            i64::MIN + 4 * 3600
        };
        let r = self.check_all_alerts_at(t);
        assert(checked_at(old(self).alerts(), old(self).cache(), self.cache(), r->Ok_0@, t));
        r
    }

    /// Change the interval between checks.
    pub fn set_check_interval(&mut self, interval_secs: u64)
        ensures
            final(self).interval() == interval_secs,
            final(self).alerts() == old(self).alerts(),
            final(self).running() == old(self).running(),
            final(self).cache() == old(self).cache(),
    {
        self.check_interval_secs = interval_secs;
    }

    /// Forget the cached samples.
    pub fn clear_cache(&mut self) -> (r: Result<(), AlertError>)
        ensures
            r is Ok,
            final(self).cache().len() == 0,
            final(self).alerts() == old(self).alerts(),
            final(self).running() == old(self).running(),
            final(self).interval() == old(self).interval(),
    {
        self.price_cache = Vec::new();
        assert(self.cache() =~= Seq::<(Seq<char>, Seq<PriceRecord>)>::empty());
        Ok(())
    }
}

impl Default for PriceMonitor {
    fn default() -> (r: Self)
        ensures
            r.wf(),
            !r.running(),
            r.alerts().len() == 0,
            r.interval() == 300,
    {
        Self::new()
    }
}

} // verus!
