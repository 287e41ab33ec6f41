//! Reviews of submitted price records: each review changes the record's
//! status in the price service and is kept, per record, as the latest
//! review. Times are Unix seconds; the rate is in hundredths of a percent.
use vstd::prelude::*;
use crate::models::PriceRecord;
use crate::services::price_service::{record_not_found, with_status, PriceService};
use crate::services::{service_failure_of, ServiceError};
use crate::table::{get_copy, has_key, key_index, keys_distinct, lookup_key, put, put_record, Record};
use crate::text::owned;

verus! {

broadcast use vstd::string::group_string_axioms;

/// One review of a price record.
#[derive(Debug, Clone)]
pub struct VerificationRecord {
    pub price_record_id: String,
    pub original_status: String,
    pub new_status: String,
    pub verified_by: String,
    pub timestamp: i64,
    pub reason: Option<String>,
}

impl Record for VerificationRecord {
    open spec fn key(&self) -> Seq<char> {
        self.price_record_id@
    }

    open spec fn same(&self, other: &Self) -> bool {
        *self == *other
    }

    fn key_str(&self) -> (r: &str) {
        self.price_record_id.as_str()
    }

    fn duplicate(&self) -> (r: Self) {
        VerificationRecord {
            price_record_id: self.price_record_id.clone(),
            original_status: self.original_status.clone(),
            new_status: self.new_status.clone(),
            verified_by: self.verified_by.clone(),
            timestamp: self.timestamp,
            reason: match &self.reason {
                Some(x) => Some(x.clone()),
                None => None,
            },
        }
    }
}

/// Review counts; the rate is the share of verified records in hundredths
/// of a percent.
#[derive(Debug, Clone, Copy)]
pub struct VerificationStats {
    pub total_pending: usize,
    pub total_verified: usize,
    pub total_rejected: usize,
    pub verification_rate: u128,
    pub recent_verifications: usize,
}

/// How many reviews are after `cutoff`.
pub open spec fn reviews_after(h: Seq<VerificationRecord>, cutoff: int) -> int
    decreases h.len(),
{
    if h.len() == 0 {
        0
    } else {
        reviews_after(h.drop_last(), cutoff) + if h.last().timestamp > cutoff {
            1int
        } else {
            0
        }
    }
}

/// What a review leaves behind: the record's status before and after, who
/// reviewed it, when and why.
pub open spec fn review_is(
    v: VerificationRecord,
    id: Seq<char>,
    before: Seq<char>,
    after: Seq<char>,
    by: Seq<char>,
    now: i64,
    reason: Option<String>,
) -> bool {
    &&& v.price_record_id@ == id
    &&& v.original_status@ == before
    &&& v.new_status@ == after
    &&& v.verified_by@ == by
    &&& v.timestamp == now
    &&& v.reason == reason
}

/// The latest review of each price record reviewed.
pub struct VerificationManager {
    verification_history: Vec<VerificationRecord>,
}

impl VerificationManager {
    /// The reviews kept, one per record, in the order first reviewed.
    pub closed spec fn history(&self) -> Seq<VerificationRecord> {
        self.verification_history@
    }

    /// No record has two reviews kept.
    pub closed spec fn wf(&self) -> bool {
        keys_distinct(self.verification_history@)
    }

    /// No reviews.
    pub fn new() -> (r: Self)
        ensures
            r.wf(),
            r.history().len() == 0,
    {
        VerificationManager { verification_history: Vec::new() }
    }

    /// Review a record to a new status (1 verified, 2 rejected, else back
    /// to pending) at `now`.
    fn review_at(
        &mut self,
        price_service: &mut PriceService,
        price_record_id: &str,
        verified_by: &str,
        reason: Option<String>,
        outcome: u8,
        now: i64,
    ) -> (r: Result<(), ServiceError>)
        requires
            old(self).wf(),
            old(price_service).wf(),
        ensures
            final(self).wf(),
            final(price_service).wf(),
            !has_key(old(price_service).records(), price_record_id@) ==> (r matches Err(e) && service_failure_of(e)
                == record_not_found(price_record_id@)) && final(price_service).records() == old(
                price_service,
            ).records() && final(self).history() == old(self).history(),
            has_key(old(price_service).records(), price_record_id@) ==> ({
                let i = key_index(old(price_service).records(), price_record_id@);
                let o = old(price_service).records()[i];
                let after = if outcome == 1 {
                    "verified"@
                } else if outcome == 2 {
                    "rejected"@
                } else {
                    "pending"@
                };
                &&& r is Ok
                &&& final(price_service).records() == old(price_service).records().update(
                    i,
                    PriceRecord { verification_status: final(price_service).records()[i].verification_status, ..o },
                )
                &&& final(price_service).records()[i].verification_status@ == after
                &&& exists|v: VerificationRecord|
                    review_is(v, price_record_id@, o.verification_status@, after, verified_by@, now, reason)
                        && final(self).history() == #[trigger] put_record(old(self).history(), v)
            }),
    {
        let current = match price_service.get_price_record(price_record_id) {
            Ok(p) => p,
            Err(e) => {
                return Err(e);
            },
        };
        let original_status = current.verification_status.clone();
        let (res, new_status) = if outcome == 1 {
            (price_service.verify_price(price_record_id, true), owned("verified"))
        } else if outcome == 2 {
            (price_service.verify_price(price_record_id, false), owned("rejected"))
        } else {
            (price_service.reset_price_record_status(price_record_id), owned("pending"))
        };
        match res {
            Ok(_) => {},
            Err(e) => {
                return Err(e);
            },
        }
        let v = VerificationRecord {
            price_record_id: owned(price_record_id),
            original_status,
            new_status,
            verified_by: owned(verified_by),
            timestamp: now,
            reason,
        };
        let ghost vv = v;
        proof {
            let i = key_index(old(price_service).records(), price_record_id@);
            assert(current == old(price_service).records()[i]);
            assert(vv.original_status@ == old(price_service).records()[i].verification_status@);
        }
        put(&mut self.verification_history, v);
        proof {
            let i = key_index(old(price_service).records(), price_record_id@);
            let o = old(price_service).records()[i];
            let after = if outcome == 1 {
                "verified"@
            } else if outcome == 2 {
                "rejected"@
            } else {
                "pending"@
            };
            assert(price_service.records()[i].verification_status@ == after);
            assert(price_service.records() == old(price_service).records().update(
                i,
                PriceRecord { verification_status: price_service.records()[i].verification_status, ..o },
            ));
            assert(review_is(vv, price_record_id@, o.verification_status@, after, verified_by@, now, vv.reason));
            assert(self.history() == put_record(old(self).history(), vv));
        }
        Ok(())
    }

    /// Mark a record verified at `now` and keep the review.
    pub fn verify_price_record_at(
        &mut self,
        price_service: &mut PriceService,
        price_record_id: &str,
        verified_by: &str,
        reason: Option<String>,
        now: i64,
    ) -> (r: Result<(), ServiceError>)
        requires
            old(self).wf(),
            old(price_service).wf(),
        ensures
            final(self).wf(),
            final(price_service).wf(),
            !has_key(old(price_service).records(), price_record_id@) ==> (r matches Err(e) && service_failure_of(e)
                == record_not_found(price_record_id@)) && final(price_service).records() == old(
                price_service,
            ).records() && final(self).history() == old(self).history(),
            has_key(old(price_service).records(), price_record_id@) ==> ({
                let i = key_index(old(price_service).records(), price_record_id@);
                let o = old(price_service).records()[i];
                &&& r is Ok
                &&& final(price_service).records() == old(price_service).records().update(
                    i,
                    PriceRecord { verification_status: final(price_service).records()[i].verification_status, ..o },
                )
                &&& final(price_service).records()[i].verification_status@ == "verified"@
                &&& exists|v: VerificationRecord|
                    review_is(v, price_record_id@, o.verification_status@, "verified"@, verified_by@, now, reason)
                        && final(self).history() == #[trigger] put_record(old(self).history(), v)
            }),
    {
        self.review_at(price_service, price_record_id, verified_by, reason, 1, now)
    }

    /// Mark a record rejected at `now` and keep the review.
    pub fn reject_price_record_at(
        &mut self,
        price_service: &mut PriceService,
        price_record_id: &str,
        verified_by: &str,
        reason: Option<String>,
        now: i64,
    ) -> (r: Result<(), ServiceError>)
        requires
            old(self).wf(),
            old(price_service).wf(),
        ensures
            final(self).wf(),
            final(price_service).wf(),
            !has_key(old(price_service).records(), price_record_id@) ==> (r matches Err(e) && service_failure_of(e)
                == record_not_found(price_record_id@)) && final(price_service).records() == old(
                price_service,
            ).records() && final(self).history() == old(self).history(),
            has_key(old(price_service).records(), price_record_id@) ==> ({
                let i = key_index(old(price_service).records(), price_record_id@);
                let o = old(price_service).records()[i];
                &&& r is Ok
                &&& final(price_service).records() == old(price_service).records().update(
                    i,
                    PriceRecord { verification_status: final(price_service).records()[i].verification_status, ..o },
                )
                &&& final(price_service).records()[i].verification_status@ == "rejected"@
                &&& exists|v: VerificationRecord|
                    review_is(v, price_record_id@, o.verification_status@, "rejected"@, verified_by@, now, reason)
                        && final(self).history() == #[trigger] put_record(old(self).history(), v)
            }),
    {
        self.review_at(price_service, price_record_id, verified_by, reason, 2, now)
    }

    /// Put a record back under review at `now` and keep the review.
    pub fn reset_to_pending_at(
        &mut self,
        price_service: &mut PriceService,
        price_record_id: &str,
        verified_by: &str,
        reason: Option<String>,
        now: i64,
    ) -> (r: Result<(), ServiceError>)
        requires
            old(self).wf(),
            old(price_service).wf(),
        ensures
            final(self).wf(),
            final(price_service).wf(),
            !has_key(old(price_service).records(), price_record_id@) ==> (r matches Err(e) && service_failure_of(e)
                == record_not_found(price_record_id@)) && final(price_service).records() == old(
                price_service,
            ).records() && final(self).history() == old(self).history(),
            has_key(old(price_service).records(), price_record_id@) ==> ({
                let i = key_index(old(price_service).records(), price_record_id@);
                let o = old(price_service).records()[i];
                &&& r is Ok
                &&& final(price_service).records() == old(price_service).records().update(
                    i,
                    PriceRecord { verification_status: final(price_service).records()[i].verification_status, ..o },
                )
                &&& final(price_service).records()[i].verification_status@ == "pending"@
                &&& exists|v: VerificationRecord|
                    review_is(v, price_record_id@, o.verification_status@, "pending"@, verified_by@, now, reason)
                        && final(self).history() == #[trigger] put_record(old(self).history(), v)
            }),
    {
        self.review_at(price_service, price_record_id, verified_by, reason, 0, now)
    }

    /// Review counts at `now`: by status from the price service, the share
    /// verified, and the reviews of the last day.
    pub fn get_verification_stats_at(&self, price_service: &PriceService, now: i64) -> (r: Result<
        VerificationStats,
        ServiceError,
    >)
        ensures
            r matches Ok(st) && ({
                let recs = price_service.records();
                let verified = recs.filter(with_status("verified"@)).len();
                &&& st.total_pending == recs.filter(with_status("pending"@)).len()
                &&& st.total_verified == verified
                &&& st.total_rejected == recs.filter(with_status("rejected"@)).len()
                &&& st.verification_rate == (if recs.len() > 0 {
                    (verified * 10000) as int / recs.len() as int
                } else {
                    0
                })
                &&& st.recent_verifications == reviews_after(self.history(), now - 86400)
            }),
    {
        let sub = match price_service.get_submission_stats() {
            Ok(s) => s,
            Err(e) => {
                return Err(e);
            },
        };
        let total = sub.total_submissions;
        let rate: u128 = if total > 0 {
            (sub.verified_count as u128) * 10000 / (total as u128)
        } else {
            0
        };
        let cutoff: i128 = (now as i128) - 86400;
        let mut recent: usize = 0;
        let mut i: usize = 0;
        while i < self.verification_history.len()
            invariant
                i <= self.verification_history@.len(),
                recent == reviews_after(self.verification_history@.subrange(0, i as int), cutoff as int),
                recent <= i,
            decreases self.verification_history.len() - i,
        {
            assert(self.verification_history@.subrange(0, i + 1).drop_last() =~= self.verification_history@.subrange(
                0,
                i as int,
            ));
            if (self.verification_history[i].timestamp as i128) > cutoff {
                recent = recent + 1;
            }
            i = i + 1;
        }
        assert(self.verification_history@.subrange(0, self.verification_history@.len() as int)
            =~= self.verification_history@);
        Ok(
            VerificationStats {
                total_pending: sub.pending_count,
                total_verified: sub.verified_count,
                total_rejected: sub.rejected_count,
                verification_rate: rate,
                recent_verifications: recent,
            },
        )
    }
}

/// How many of the ids name a record of the price list.
pub open spec fn known_count(ids: Seq<String>, recs: Seq<PriceRecord>) -> int
    decreases ids.len(),
{
    if ids.len() == 0 {
        0
    } else {
        known_count(ids.drop_last(), recs) + if has_key(recs, ids.last()@) {
            1int
        } else {
            0
        }
    }
}

impl VerificationManager {
    /// The review kept for a record.
    pub fn get_verification_history(&self, price_record_id: &str) -> (r: Option<VerificationRecord>)
        requires
            self.wf(),
        ensures
            r == lookup_key(self.history(), price_record_id@),
    {
        match get_copy(&self.verification_history, price_record_id) {
            Some(x) => {
                proof {
                    crate::table::lemma_key_index(self.history(), key_index(self.history(), price_record_id@));
                }
                Some(x)
            },
            None => None,
        }
    }

    /// Copies of all reviews kept, in the order first reviewed.
    pub fn get_all_verification_history(&self) -> (r: Vec<VerificationRecord>)
        ensures
            r@ == self.history(),
    {
        let mut out: Vec<VerificationRecord> = Vec::new();
        let mut i: usize = 0;
        while i < self.verification_history.len()
            invariant
                i <= self.verification_history@.len(),
                out@ == self.verification_history@.subrange(0, i as int),
            decreases self.verification_history.len() - i,
        {
            out.push(self.verification_history[i].duplicate());
            assert(out@ =~= self.verification_history@.subrange(0, i + 1));
            i = i + 1;
        }
        assert(out@ =~= self.verification_history@);
        out
    }

    /// Mark several records verified at `now`; how many were found.
    pub fn bulk_verify_records_at(
        &mut self,
        price_service: &mut PriceService,
        price_record_ids: &[String],
        verified_by: &str,
        reason: Option<String>,
        now: i64,
    ) -> (r: Result<usize, ServiceError>)
        requires
            old(self).wf(),
            old(price_service).wf(),
        ensures
            final(self).wf(),
            final(price_service).wf(),
            final(price_service).records().len() == old(price_service).records().len(),
            r matches Ok(n) && n == known_count(price_record_ids@, old(price_service).records()),
    {
        self.bulk_review_at(price_service, price_record_ids, verified_by, reason, 1, now)
    }

    /// Mark several records rejected at `now`; how many were found.
    pub fn bulk_reject_records_at(
        &mut self,
        price_service: &mut PriceService,
        price_record_ids: &[String],
        verified_by: &str,
        reason: Option<String>,
        now: i64,
    ) -> (r: Result<usize, ServiceError>)
        requires
            old(self).wf(),
            old(price_service).wf(),
        ensures
            final(self).wf(),
            final(price_service).wf(),
            final(price_service).records().len() == old(price_service).records().len(),
            r matches Ok(n) && n == known_count(price_record_ids@, old(price_service).records()),
    {
        self.bulk_review_at(price_service, price_record_ids, verified_by, reason, 2, now)
    }

    /// Review several records the same way.
    fn bulk_review_at(
        &mut self,
        price_service: &mut PriceService,
        price_record_ids: &[String],
        verified_by: &str,
        reason: Option<String>,
        outcome: u8,
        now: i64,
    ) -> (r: Result<usize, ServiceError>)
        requires
            old(self).wf(),
            old(price_service).wf(),
        ensures
            final(self).wf(),
            final(price_service).wf(),
            final(price_service).records().len() == old(price_service).records().len(),
            r matches Ok(n) && n == known_count(price_record_ids@, old(price_service).records()),
    {
        let mut count: usize = 0;
        let mut i: usize = 0;
        while i < price_record_ids.len()
            invariant
                self.wf(),
                price_service.wf(),
                i <= price_record_ids@.len(),
                price_service.records().len() == old(price_service).records().len(),
                forall|k: int| 0 <= k < price_service.records().len() ==> (#[trigger] price_service.records()[k]).key()
                    == old(price_service).records()[k].key(),
                count == known_count(price_record_ids@.subrange(0, i as int), old(price_service).records()),
                count <= i,
            decreases price_record_ids.len() - i,
        {
            assert(price_record_ids@.subrange(0, i + 1).drop_last() =~= price_record_ids@.subrange(0, i as int));
            proof {
                lemma_same_keys(price_service.records(), old(price_service).records(), price_record_ids@[i as int]@);
            }
            let ghost before = price_service.records();
            let reason_copy = match &reason {
                Some(x) => Some(x.clone()),
                None => None,
            };
            let res = self.review_at(price_service, price_record_ids[i].as_str(), verified_by, reason_copy, outcome, now);
            proof {
                if has_key(before, price_record_ids@[i as int]@) {
                    let j = key_index(before, price_record_ids@[i as int]@);
                    assert forall|k: int| 0 <= k < price_service.records().len() implies (#[trigger] price_service.records()[k]).key()
                        == old(price_service).records()[k].key() by {
                        if k == j {
                            assert(price_service.records()[k].id == before[k].id);
                        }
                    }
                }
            }
            if res.is_ok() {
                count = count + 1;
            }
            i = i + 1;
        }
        assert(price_record_ids@.subrange(0, price_record_ids@.len() as int) =~= price_record_ids@);
        Ok(count)
    }
}

/// Two lists with the same ids at each position hold the same ids.
proof fn lemma_same_keys(a: Seq<PriceRecord>, b: Seq<PriceRecord>, k: Seq<char>)
    requires
        a.len() == b.len(),
        forall|i: int| 0 <= i < a.len() ==> (#[trigger] a[i]).key() == b[i].key(),
    ensures
        has_key(a, k) == has_key(b, k),
{
    if has_key(a, k) {
        let i = choose|i: int| 0 <= i < a.len() && #[trigger] a[i].key() == k;
        assert(b[i].key() == k);
    }
    if has_key(b, k) {
        let i = choose|i: int| 0 <= i < b.len() && #[trigger] b[i].key() == k;
        assert(a[i].key() == k);
    }
}

impl Default for VerificationManager {
    fn default() -> (r: Self)
        ensures
            r.wf(),
            r.history().len() == 0,
    {
        Self::new()
    }
}

/// A review of record `id` to status `after` at `now` was made: the record's
/// status changed and the review is kept.
pub open spec fn review_done(
    ps0: Seq<PriceRecord>,
    ps1: Seq<PriceRecord>,
    h0: Seq<VerificationRecord>,
    h1: Seq<VerificationRecord>,
    id: Seq<char>,
    by: Seq<char>,
    reason: Option<String>,
    after: Seq<char>,
    now: i64,
) -> bool {
    let i = key_index(ps0, id);
    let o = ps0[i];
    &&& ps1 == ps0.update(i, PriceRecord { verification_status: ps1[i].verification_status, ..o })
    &&& ps1[i].verification_status@ == after
    &&& exists|v: VerificationRecord|
        review_is(v, id, o.verification_status@, after, by, now, reason) && h1 == #[trigger] put_record(h0, v)
}

impl VerificationManager {
    /// Mark a record verified now and keep the review.
    pub fn verify_price_record(
        &mut self,
        price_service: &mut PriceService,
        price_record_id: &str,
        verified_by: &str,
        reason: Option<String>,
    ) -> (r: Result<(), ServiceError>)
        requires
            old(self).wf(),
            old(price_service).wf(),
        ensures
            final(self).wf(),
            final(price_service).wf(),
            !has_key(old(price_service).records(), price_record_id@) ==> (r matches Err(e) && service_failure_of(e)
                == record_not_found(price_record_id@)) && final(price_service).records() == old(
                price_service,
            ).records() && final(self).history() == old(self).history(),
            has_key(old(price_service).records(), price_record_id@) ==> r is Ok && exists|now: i64|
                #[trigger] review_done(
                    old(price_service).records(),
                    final(price_service).records(),
                    old(self).history(),
                    final(self).history(),
                    price_record_id@,
                    verified_by@,
                    reason,
                    "verified"@,
                    now,
                ),
    {
        let now = crate::error::now_unix_seconds();
        let r = self.verify_price_record_at(price_service, price_record_id, verified_by, reason, now);
        assert(has_key(old(price_service).records(), price_record_id@) ==> review_done(
            old(price_service).records(),
            price_service.records(),
            old(self).history(),
            self.history(),
            price_record_id@,
            verified_by@,
            reason,
            "verified"@,
            now,
        ));
        r
    }

    /// Mark a record rejected now and keep the review.
    pub fn reject_price_record(
        &mut self,
        price_service: &mut PriceService,
        price_record_id: &str,
        verified_by: &str,
        reason: Option<String>,
    ) -> (r: Result<(), ServiceError>)
        requires
            old(self).wf(),
            old(price_service).wf(),
        ensures
            final(self).wf(),
            final(price_service).wf(),
            !has_key(old(price_service).records(), price_record_id@) ==> (r matches Err(e) && service_failure_of(e)
                == record_not_found(price_record_id@)) && final(price_service).records() == old(
                price_service,
            ).records() && final(self).history() == old(self).history(),
            has_key(old(price_service).records(), price_record_id@) ==> r is Ok && exists|now: i64|
                #[trigger] review_done(
                    old(price_service).records(),
                    final(price_service).records(),
                    old(self).history(),
                    final(self).history(),
                    price_record_id@,
                    verified_by@,
                    reason,
                    "rejected"@,
                    now,
                ),
    {
        let now = crate::error::now_unix_seconds();
        let r = self.reject_price_record_at(price_service, price_record_id, verified_by, reason, now);
        assert(has_key(old(price_service).records(), price_record_id@) ==> review_done(
            old(price_service).records(),
            price_service.records(),
            old(self).history(),
            self.history(),
            price_record_id@,
            verified_by@,
            reason,
            "rejected"@,
            now,
        ));
        r
    }

    /// Put a record back under review now and keep the review.
    pub fn reset_to_pending(
        &mut self,
        price_service: &mut PriceService,
        price_record_id: &str,
        verified_by: &str,
        reason: Option<String>,
    ) -> (r: Result<(), ServiceError>)
        requires
            old(self).wf(),
            old(price_service).wf(),
        ensures
            final(self).wf(),
            final(price_service).wf(),
            !has_key(old(price_service).records(), price_record_id@) ==> (r matches Err(e) && service_failure_of(e)
                == record_not_found(price_record_id@)) && final(price_service).records() == old(
                price_service,
            ).records() && final(self).history() == old(self).history(),
            has_key(old(price_service).records(), price_record_id@) ==> r is Ok && exists|now: i64|
                #[trigger] review_done(
                    old(price_service).records(),
                    final(price_service).records(),
                    old(self).history(),
                    final(self).history(),
                    price_record_id@,
                    verified_by@,
                    reason,
                    "pending"@,
                    now,
                ),
    {
        let now = crate::error::now_unix_seconds();
        let r = self.reset_to_pending_at(price_service, price_record_id, verified_by, reason, now);
        assert(has_key(old(price_service).records(), price_record_id@) ==> review_done(
            old(price_service).records(),
            price_service.records(),
            old(self).history(),
            self.history(),
            price_record_id@,
            verified_by@,
            reason,
            "pending"@,
            now,
        ));
        r
    }

    /// Review counts now.
    pub fn get_verification_stats(&self, price_service: &PriceService) -> (r: Result<VerificationStats, ServiceError>)
        ensures
            r matches Ok(st) && st.total_pending == price_service.records().filter(with_status("pending"@)).len()
                && st.total_verified == price_service.records().filter(with_status("verified"@)).len()
                && st.total_rejected == price_service.records().filter(with_status("rejected"@)).len()
                && exists|now: i64| st.recent_verifications == #[trigger] reviews_after(self.history(), now - 86400),
    {
        let now = crate::error::now_unix_seconds();
        self.get_verification_stats_at(price_service, now)
    }

    /// Mark several records verified now; how many were found.
    pub fn bulk_verify_records(
        &mut self,
        price_service: &mut PriceService,
        price_record_ids: &[String],
        verified_by: &str,
        reason: Option<String>,
    ) -> (r: Result<usize, ServiceError>)
        requires
            old(self).wf(),
            old(price_service).wf(),
        ensures
            final(self).wf(),
            final(price_service).wf(),
            r matches Ok(n) && n == known_count(price_record_ids@, old(price_service).records()),
    {
        let now = crate::error::now_unix_seconds();
        self.bulk_verify_records_at(price_service, price_record_ids, verified_by, reason, now)
    }

    /// Mark several records rejected now; how many were found.
    pub fn bulk_reject_records(
        &mut self,
        price_service: &mut PriceService,
        price_record_ids: &[String],
        verified_by: &str,
        reason: Option<String>,
    ) -> (r: Result<usize, ServiceError>)
        requires
            old(self).wf(),
            old(price_service).wf(),
        ensures
            final(self).wf(),
            final(price_service).wf(),
            r matches Ok(n) && n == known_count(price_record_ids@, old(price_service).records()),
    {
        let now = crate::error::now_unix_seconds();
        self.bulk_reject_records_at(price_service, price_record_ids, verified_by, reason, now)
    }
}

} // verus!
