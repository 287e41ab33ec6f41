//! Progress of a long task: a fraction done in thousandths, steps, a status
//! line, an error, and the progress of sub-tasks. Times are Unix seconds.
use vstd::prelude::*;
use crate::auth::session::div_toward_zero;
use crate::text::owned;
use crate::utils::numbers::u64_decimal;

verus! {

broadcast use vstd::string::group_string_axioms;

/// A snapshot of a tracker, as handed to those who follow it.
#[derive(Debug, Clone)]
pub struct ProgressUpdate {
    pub progress: u32,
    pub step: u32,
    pub total_steps: Option<u32>,
    pub message: String,
    pub timestamp: i64,
    pub estimated_completion: Option<i128>,
}

/// The full state of a tracker and of its sub-trackers.
#[derive(Debug)]
pub struct DetailedStatus {
    pub progress: u32,
    pub step: u32,
    pub total_steps: Option<u32>,
    pub message: String,
    pub error: Option<String>,
    pub started_at: Option<i64>,
    pub last_update: Option<i64>,
    pub elapsed_seconds: Option<i128>,
    pub estimated_remaining: Option<i128>,
    pub sub_operations: Vec<DetailedStatus>,
}

/// Progress of a task.
#[derive(Debug)]
pub struct ProgressTracker {
    current_progress: u32,
    total_steps: Option<u32>,
    current_step: u32,
    status_message: String,
    error_message: Option<String>,
    started_at: Option<i64>,
    last_update: Option<i64>,
    sub_trackers: Vec<ProgressTracker>,
}

/// Seconds from `start` to `now`.
pub open spec fn elapsed_from(start: Option<i64>, now: i64) -> Option<i128> {
    match start {
        Some(s) => Some((now - s) as i128),
        None => None,
    }
}

/// Seconds left at this pace: the elapsed time stretched to the whole task,
/// less what has passed, rounded toward zero and at least 0; only while the
/// task is under way.
pub open spec fn remaining_from(elapsed: Option<i128>, progress: int) -> Option<i128> {
    match elapsed {
        Some(e) => if 0 < progress < 1000 {
            let r = div_toward_zero(e * 1000, progress) - e;
            Some(
                if r > 0 {
                    r as i128
                } else {
                    0
                },
            )
        } else {
            None
        },
        None => None,
    }
}

/// The step reached at a progress out of `total` steps (rounded down).
pub open spec fn step_at(progress: int, total: int) -> int {
    progress * total / 1000
}

/// The progress of a step out of `total` steps, at most 1000.
pub open spec fn progress_at_step(step: int, total: int) -> int {
    if total > 0 {
        if step * 1000 / total > 1000 {
            1000
        } else {
            step * 1000 / total
        }
    } else {
        0
    }
}

impl ProgressTracker {
    /// Progress in thousandths.
    pub closed spec fn progress_spec(&self) -> u32 {
        self.current_progress
    }

    /// The number of steps, if known.
    pub closed spec fn total_spec(&self) -> Option<u32> {
        self.total_steps
    }

    /// The step reached.
    pub closed spec fn step_spec(&self) -> u32 {
        self.current_step
    }

    /// The status line.
    pub closed spec fn message_spec(&self) -> Seq<char> {
        self.status_message@
    }

    /// The error, if any.
    pub closed spec fn error_spec(&self) -> Option<Seq<char>> {
        match self.error_message {
            Some(e) => Some(e@),
            None => None,
        }
    }

    /// When the task started.
    pub closed spec fn started_spec(&self) -> Option<i64> {
        self.started_at
    }

    /// When progress was last reported.
    pub closed spec fn last_update_spec(&self) -> Option<i64> {
        self.last_update
    }

    /// The sub-trackers.
    pub closed spec fn subs(&self) -> Seq<ProgressTracker> {
        self.sub_trackers@
    }

    /// Progress is at most 1000.
    pub closed spec fn wf(&self) -> bool {
        self.current_progress <= 1000
    }

    /// A fresh tracker: nothing done, no steps, "Initializing...".
    pub fn new() -> (r: Self)
        ensures
            r.wf(),
            r.progress_spec() == 0,
            r.total_spec() is None,
            r.step_spec() == 0,
            r.message_spec() == "Initializing..."@,
            r.error_spec() is None,
            r.started_spec() is None,
            r.last_update_spec() is None,
            r.subs().len() == 0,
    {
        ProgressTracker {
            current_progress: 0,
            total_steps: None,
            current_step: 0,
            status_message: owned("Initializing..."),
            error_message: None,
            started_at: None,
            last_update: None,
            sub_trackers: Vec::new(),
        }
    }

    /// A fresh tracker over a number of steps.
    pub fn with_steps(total_steps: u32) -> (r: Self)
        ensures
            r.wf(),
            r.progress_spec() == 0,
            r.total_spec() == Some(total_steps),
            r.step_spec() == 0,
            r.message_spec() == "Initializing..."@,
            r.error_spec() is None,
            r.started_spec() is None,
            r.last_update_spec() is None,
            r.subs().len() == 0,
    {
        let mut t = Self::new();
        t.total_steps = Some(total_steps);
        t
    }

    /// Mark the task started at `now` with a status line.
    pub fn start_at(&mut self, message: &str, now: i64)
        ensures
            final(self).started_spec() == Some(now),
            final(self).message_spec() == message@,
            final(self).wf() == old(self).wf(),
            final(self).progress_spec() == old(self).progress_spec(),
            final(self).total_spec() == old(self).total_spec(),
            final(self).step_spec() == old(self).step_spec(),
            final(self).error_spec() == old(self).error_spec(),
            final(self).last_update_spec() == old(self).last_update_spec(),
            final(self).subs() == old(self).subs(),
    {
        self.started_at = Some(now);
        self.status_message = owned(message);
    }

    /// Report a progress in thousandths (at most 1000) at `now`; with a known
    /// number of steps the step follows the progress.
    pub fn update_progress_at(&mut self, progress: u32, message: &str, now: i64)
        ensures
            final(self).wf(),
            final(self).progress_spec() == (if progress > 1000 { 1000 } else { progress }),
            final(self).message_spec() == message@,
            final(self).last_update_spec() == Some(now),
            match old(self).total_spec() {
                Some(t) => final(self).step_spec() == step_at(final(self).progress_spec() as int, t as int),
                None => final(self).step_spec() == old(self).step_spec(),
            },
            final(self).total_spec() == old(self).total_spec(),
            final(self).error_spec() == old(self).error_spec(),
            final(self).started_spec() == old(self).started_spec(),
            final(self).subs() == old(self).subs(),
    {
        let p = if progress > 1000 {
            1000
        } else {
            progress
        };
        self.current_progress = p;
        self.status_message = owned(message);
        self.last_update = Some(now);
        match self.total_steps {
            Some(t) => {
                assert((p as u64) * (t as u64) <= 1000 * 0xffff_ffff) by (nonlinear_arith)
                    requires
                        p <= 1000,
                        t <= 0xffff_ffff,
                ;
                let s = (p as u64) * (t as u64) / 1000;
                assert(s <= t) by (nonlinear_arith)
                    requires
                        s == (p as u64) * (t as u64) / 1000,
                        p <= 1000,
                ;
                self.current_step = s as u32;
            },
            None => {},
        }
    }

    /// Report a step at `now`; with a known number of steps the progress
    /// follows the step.
    pub fn update_step_at(&mut self, step: u32, message: &str, now: i64)
        ensures
            final(self).wf() == (old(self).wf() || old(self).total_spec() is Some),
            final(self).step_spec() == step,
            final(self).message_spec() == message@,
            final(self).last_update_spec() == Some(now),
            match old(self).total_spec() {
                Some(t) => final(self).progress_spec() == progress_at_step(step as int, t as int),
                None => final(self).progress_spec() == old(self).progress_spec(),
            },
            final(self).total_spec() == old(self).total_spec(),
            final(self).error_spec() == old(self).error_spec(),
            final(self).started_spec() == old(self).started_spec(),
            final(self).subs() == old(self).subs(),
    {
        self.current_step = step;
        self.status_message = owned(message);
        self.last_update = Some(now);
        match self.total_steps {
            Some(t) => {
                let p: u32 = if t > 0 {
                    let q = (step as u64) * 1000 / (t as u64);
                    if q > 1000 {
                        1000
                    } else {
                        q as u32
                    }
                } else {
                    0
                };
                self.current_progress = p;
            },
            None => {},
        }
    }

    /// Move one step on at `now`.
    pub fn increment_step_at(&mut self, message: &str, now: i64)
        requires
            old(self).step_spec() < u32::MAX,
        ensures
            final(self).wf() == (old(self).wf() || old(self).total_spec() is Some),
            final(self).step_spec() == old(self).step_spec() + 1,
            final(self).message_spec() == message@,
            final(self).last_update_spec() == Some(now),
            match old(self).total_spec() {
                Some(t) => final(self).progress_spec() == progress_at_step(old(self).step_spec() + 1, t as int),
                None => final(self).progress_spec() == old(self).progress_spec(),
            },
            final(self).total_spec() == old(self).total_spec(),
            final(self).error_spec() == old(self).error_spec(),
            final(self).started_spec() == old(self).started_spec(),
            final(self).subs() == old(self).subs(),
    {
        let current = self.current_step;
        self.update_step_at(current + 1, message, now);
    }

    /// Record an error.
    pub fn set_error(&mut self, error: &str)
        ensures
            final(self).error_spec() == Some(error@),
            final(self).wf() == old(self).wf(),
            final(self).progress_spec() == old(self).progress_spec(),
            final(self).total_spec() == old(self).total_spec(),
            final(self).step_spec() == old(self).step_spec(),
            final(self).message_spec() == old(self).message_spec(),
            final(self).started_spec() == old(self).started_spec(),
            final(self).last_update_spec() == old(self).last_update_spec(),
            final(self).subs() == old(self).subs(),
    {
        self.error_message = Some(owned(error));
    }

    /// Forget the error.
    pub fn clear_error(&mut self)
        ensures
            final(self).error_spec() is None,
            final(self).wf() == old(self).wf(),
            final(self).progress_spec() == old(self).progress_spec(),
            final(self).total_spec() == old(self).total_spec(),
            final(self).step_spec() == old(self).step_spec(),
            final(self).message_spec() == old(self).message_spec(),
            final(self).started_spec() == old(self).started_spec(),
            final(self).last_update_spec() == old(self).last_update_spec(),
            final(self).subs() == old(self).subs(),
    {
        self.error_message = None;
    }

    /// Mark the task done at `now`: all progress, "Completed", and the last
    /// step when the number of steps is known.
    pub fn complete_at(&mut self, now: i64)
        ensures
            final(self).wf(),
            final(self).progress_spec() == 1000,
            final(self).message_spec() == "Completed"@,
            final(self).last_update_spec() == Some(now),
            match old(self).total_spec() {
                Some(t) => final(self).step_spec() == t,
                None => final(self).step_spec() == old(self).step_spec(),
            },
            final(self).total_spec() == old(self).total_spec(),
            final(self).error_spec() == old(self).error_spec(),
            final(self).started_spec() == old(self).started_spec(),
            final(self).subs() == old(self).subs(),
    {
        self.current_progress = 1000;
        self.status_message = owned("Completed");
        self.last_update = Some(now);
        match self.total_steps {
            Some(t) => {
                self.current_step = t;
            },
            None => {},
        }
    }

    /// Back to the start: nothing done, step 0, "Ready", no error, not
    /// started, no report.
    pub fn reset(&mut self)
        ensures
            final(self).wf(),
            final(self).progress_spec() == 0,
            final(self).step_spec() == 0,
            final(self).message_spec() == "Ready"@,
            final(self).error_spec() is None,
            final(self).started_spec() is None,
            final(self).last_update_spec() is None,
            final(self).total_spec() == old(self).total_spec(),
            final(self).subs() == old(self).subs(),
    {
        self.current_progress = 0;
        self.current_step = 0;
        self.status_message = owned("Ready");
        self.error_message = None;
        self.started_at = None;
        self.last_update = None;
    }

    /// A copy of the tracker and its sub-trackers.
    pub fn copy(&self) -> (r: Self)
        ensures
            same_tracker(r, *self),
        decreases self,
    {
        let mut subs: Vec<ProgressTracker> = Vec::new();
        let mut i: usize = 0;
        while i < self.sub_trackers.len()
            invariant
                i <= self.sub_trackers@.len(),
                subs@.len() == i,
                forall|k: int| 0 <= k < i ==> same_tracker(#[trigger] subs@[k], self.sub_trackers@[k]),
            decreases self.sub_trackers.len() - i,
        {
            assert(decreases_to!(self => self.sub_trackers@[i as int]));
            let t = self.sub_trackers[i].copy();
            subs.push(t);
            i = i + 1;
        }
        let error_message = match &self.error_message {
            Some(e) => Some(e.clone()),
            None => None,
        };
        let r = ProgressTracker {
            current_progress: self.current_progress,
            total_steps: self.total_steps,
            current_step: self.current_step,
            status_message: self.status_message.clone(),
            error_message,
            started_at: self.started_at,
            last_update: self.last_update,
            sub_trackers: subs,
        };
        r
    }

    /// Progress in thousandths.
    pub fn progress(&self) -> (p: u32)
        ensures
            p == self.progress_spec(),
    {
        self.current_progress
    }

    /// The step reached.
    pub fn current_step(&self) -> (s: u32)
        ensures
            s == self.step_spec(),
    {
        self.current_step
    }

    /// The number of steps, if known.
    pub fn total_steps(&self) -> (t: Option<u32>)
        ensures
            t == self.total_spec(),
    {
        self.total_steps
    }

    /// The status line.
    pub fn status_message(&self) -> (m: String)
        ensures
            m@ == self.message_spec(),
    {
        self.status_message.clone()
    }

    /// The error, if any.
    pub fn error_message(&self) -> (e: Option<String>)
        ensures
            match e {
                Some(x) => self.error_spec() == Some(x@),
                None => self.error_spec() is None,
            },
    {
        match &self.error_message {
            Some(x) => Some(x.clone()),
            None => None,
        }
    }

    /// Whether an error is recorded.
    pub fn has_error(&self) -> (b: bool)
        ensures
            b == self.error_spec() is Some,
    {
        self.error_message.is_some()
    }

    /// Whether all progress is made.
    pub fn is_completed(&self) -> (b: bool)
        ensures
            b == (self.progress_spec() >= 1000),
    {
        self.current_progress >= 1000
    }

    /// Whether the task was started.
    pub fn is_started(&self) -> (b: bool)
        ensures
            b == self.started_spec() is Some,
    {
        self.started_at.is_some()
    }

    /// Seconds since the start, at `now`.
    pub fn elapsed_seconds_at(&self, now: i64) -> (r: Option<i128>)
        ensures
            r == elapsed_from(self.started_spec(), now),
    {
        match self.started_at {
            Some(s) => Some((now as i128) - (s as i128)),
            None => None,
        }
    }

    /// Seconds left at the pace so far, at `now`.
    pub fn estimated_remaining_seconds_at(&self, now: i64) -> (r: Option<i128>)
        ensures
            r == remaining_from(elapsed_from(self.started_spec(), now), self.progress_spec() as int),
    {
        let e = match self.elapsed_seconds_at(now) {
            Some(e) => e,
            None => {
                return None;
            },
        };
        let p = self.current_progress;
        if p > 0 && p < 1000 {
            let t: i128 = if e >= 0 {
                e * 1000 / (p as i128)
            } else {
                -((-e) * 1000 / (p as i128))
            };
            let r = t - e;
            Some(
                if r > 0 {
                    r
                } else {
                    0
                },
            )
        } else {
            None
        }
    }

    /// Follow a sub-task.
    pub fn add_sub_tracker(&mut self, tracker: ProgressTracker)
        ensures
            final(self).subs() == old(self).subs().push(tracker),
            final(self).wf() == old(self).wf(),
            final(self).progress_spec() == old(self).progress_spec(),
            final(self).total_spec() == old(self).total_spec(),
            final(self).step_spec() == old(self).step_spec(),
            final(self).message_spec() == old(self).message_spec(),
            final(self).error_spec() == old(self).error_spec(),
            final(self).started_spec() == old(self).started_spec(),
            final(self).last_update_spec() == old(self).last_update_spec(),
    {
        self.sub_trackers.push(tracker);
    }

    /// Overall progress: with sub-trackers, the average of this tracker's
    /// value and the average of the sub-trackers' values, both with integer
    /// division; without sub-trackers, this tracker's value.
    pub fn combined_progress(&self) -> (p: u32)
        ensures
            self.subs().len() == 0 ==> p == self.progress_spec(),
            self.subs().len() > 0 ==> p == (self.progress_spec() + sub_progress_sum(self.subs())
                / self.subs().len() as int) / 2,
    {
        let n = self.sub_trackers.len();
        if n == 0 {
            return self.current_progress;
        }
        let mut sum: u128 = 0;
        let mut i: usize = 0;
        while i < n
            invariant
                n == self.sub_trackers@.len(),
                i <= n,
                sum == sub_progress_sum(self.sub_trackers@.subrange(0, i as int)),
                sum <= 0xffff_ffff * i,
            decreases n - i,
        {
            assert(self.sub_trackers@.subrange(0, i + 1).drop_last() =~= self.sub_trackers@.subrange(0, i as int));
            sum = sum + self.sub_trackers[i].current_progress as u128;
            i = i + 1;
        }
        assert(self.sub_trackers@.subrange(0, n as int) =~= self.sub_trackers@);
        let avg = sum / (n as u128);
        assert(avg <= 0xffff_ffff) by (nonlinear_arith)
            requires
                avg == sum / (n as u128),
                sum <= 0xffff_ffff * n,
                n > 0,
        ;
        (((self.current_progress as u128) + avg) / 2) as u32
    }

    /// The snapshot handed to followers at `now`.
    pub fn create_update_at(&self, now: i64) -> (u: ProgressUpdate)
        ensures
            u.progress == self.progress_spec(),
            u.step == self.step_spec(),
            u.total_steps == self.total_spec(),
            u.message@ == self.message_spec(),
            u.timestamp == now,
            u.estimated_completion == (match remaining_from(
                elapsed_from(self.started_spec(), now),
                self.progress_spec() as int,
            ) {
                Some(r) => Some((now + r) as i128),
                None => None,
            }),
    {
        let est = match self.estimated_remaining_seconds_at(now) {
            Some(r) => {
                proof {
                    lemma_remaining_bound(elapsed_from(self.started_spec(), now), self.progress_spec() as int);
                }
                Some((now as i128) + r)
            },
            None => None,
        };
        ProgressUpdate {
            progress: self.current_progress,
            step: self.current_step,
            total_steps: self.total_steps,
            message: self.status_message.clone(),
            timestamp: now,
            estimated_completion: est,
        }
    }

    /// The state of this tracker and, below it, of its sub-trackers, at
    /// `now`.
    pub fn detailed_status_at(&self, now: i64) -> (d: DetailedStatus)
        ensures
            status_of(d, *self, now),
            d.sub_operations@.len() == self.subs().len(),
            forall|i: int| 0 <= i < self.subs().len() ==> status_of(#[trigger] d.sub_operations@[i], self.subs()[i], now),
        decreases self,
    {
        let mut subs: Vec<DetailedStatus> = Vec::new();
        let mut i: usize = 0;
        while i < self.sub_trackers.len()
            invariant
                i <= self.sub_trackers@.len(),
                subs@.len() == i,
                forall|k: int| 0 <= k < i ==> status_of(#[trigger] subs@[k], self.sub_trackers@[k], now),
            decreases self.sub_trackers.len() - i,
        {
            assert(decreases_to!(self => self.sub_trackers@[i as int]));
            let s = self.sub_trackers[i].detailed_status_at(now);
            subs.push(s);
            i = i + 1;
        }
        DetailedStatus {
            progress: self.current_progress,
            step: self.current_step,
            total_steps: self.total_steps,
            message: self.status_message.clone(),
            error: self.error_message(),
            started_at: self.started_at,
            last_update: self.last_update,
            elapsed_seconds: self.elapsed_seconds_at(now),
            estimated_remaining: self.estimated_remaining_seconds_at(now),
            sub_operations: subs,
        }
    }

    /// Report the progress of sub-task `index` at `now`; when the sub-task
    /// is then done, this tracker moves to step `index + 1`, "Completed
    /// operation {index + 1}".
    pub fn update_sub_progress_at(&mut self, index: usize, progress: u32, message: &str, now: i64)
        requires
            index < old(self).subs().len(),
            index < u32::MAX,
        ensures
            final(self).subs().len() == old(self).subs().len(),
            final(self).subs()[index as int].progress_spec() == (if progress > 1000 { 1000 } else { progress }),
            final(self).subs()[index as int].message_spec() == message@,
            forall|k: int| 0 <= k < old(self).subs().len() && k != index ==> #[trigger] final(self).subs()[k] == old(self).subs()[k],
            progress >= 1000 ==> final(self).step_spec() == index + 1 && final(self).message_spec()
                == "Completed operation "@ + crate::utils::numbers::nat_decimal((index + 1) as nat),
            progress < 1000 ==> final(self).step_spec() == old(self).step_spec() && final(self).message_spec()
                == old(self).message_spec(),
            final(self).total_spec() == old(self).total_spec(),
    {
        let mut sub = self.sub_trackers.remove(index);
        sub.update_progress_at(progress, message, now);
        self.sub_trackers.insert(index, sub);
        if progress >= 1000 {
            let step = (index + 1) as u32;
            let mut m = owned("Completed operation ");
            let d = u64_decimal(step as u64);
            let ds = crate::text::string_from_chars(&d);
            m.append(ds.as_str());
            self.update_step_at(step, m.as_str(), now);
        }
    }
}

impl ProgressTracker {
    /// Mark the task started now with a status line.
    pub fn start(&mut self, message: &str)
        ensures
            final(self).started_spec() is Some,
            final(self).message_spec() == message@,
            final(self).wf() == old(self).wf(),
            final(self).progress_spec() == old(self).progress_spec(),
            final(self).total_spec() == old(self).total_spec(),
            final(self).step_spec() == old(self).step_spec(),
            final(self).error_spec() == old(self).error_spec(),
            final(self).last_update_spec() == old(self).last_update_spec(),
            final(self).subs() == old(self).subs(),
    {
        let now = crate::error::now_unix_seconds();
        self.start_at(message, now);
    }

    /// Report a progress in thousandths now; see `update_progress_at`.
    pub fn update_progress(&mut self, progress: u32, message: &str)
        ensures
            final(self).wf(),
            final(self).progress_spec() == (if progress > 1000 { 1000 } else { progress }),
            final(self).message_spec() == message@,
            final(self).last_update_spec() is Some,
            match old(self).total_spec() {
                Some(t) => final(self).step_spec() == step_at(final(self).progress_spec() as int, t as int),
                None => final(self).step_spec() == old(self).step_spec(),
            },
            final(self).total_spec() == old(self).total_spec(),
            final(self).error_spec() == old(self).error_spec(),
            final(self).started_spec() == old(self).started_spec(),
            final(self).subs() == old(self).subs(),
    {
        let now = crate::error::now_unix_seconds();
        self.update_progress_at(progress, message, now);
    }

    /// Report a step now; see `update_step_at`.
    pub fn update_step(&mut self, step: u32, message: &str)
        ensures
            final(self).wf() == (old(self).wf() || old(self).total_spec() is Some),
            final(self).step_spec() == step,
            final(self).message_spec() == message@,
            final(self).last_update_spec() is Some,
            match old(self).total_spec() {
                Some(t) => final(self).progress_spec() == progress_at_step(step as int, t as int),
                None => final(self).progress_spec() == old(self).progress_spec(),
            },
            final(self).total_spec() == old(self).total_spec(),
            final(self).error_spec() == old(self).error_spec(),
            final(self).started_spec() == old(self).started_spec(),
            final(self).subs() == old(self).subs(),
    {
        let now = crate::error::now_unix_seconds();
        self.update_step_at(step, message, now);
    }

    /// Move one step on now.
    pub fn increment_step(&mut self, message: &str)
        requires
            old(self).step_spec() < u32::MAX,
        ensures
            final(self).wf() == (old(self).wf() || old(self).total_spec() is Some),
            final(self).step_spec() == old(self).step_spec() + 1,
            final(self).message_spec() == message@,
            final(self).last_update_spec() is Some,
            match old(self).total_spec() {
                Some(t) => final(self).progress_spec() == progress_at_step(old(self).step_spec() + 1, t as int),
                None => final(self).progress_spec() == old(self).progress_spec(),
            },
            final(self).total_spec() == old(self).total_spec(),
            final(self).error_spec() == old(self).error_spec(),
            final(self).started_spec() == old(self).started_spec(),
            final(self).subs() == old(self).subs(),
    {
        let now = crate::error::now_unix_seconds();
        self.increment_step_at(message, now);
    }

    /// Mark the task done now; see `complete_at`.
    pub fn complete(&mut self)
        ensures
            final(self).wf(),
            final(self).progress_spec() == 1000,
            final(self).message_spec() == "Completed"@,
            final(self).last_update_spec() is Some,
            match old(self).total_spec() {
                Some(t) => final(self).step_spec() == t,
                None => final(self).step_spec() == old(self).step_spec(),
            },
            final(self).total_spec() == old(self).total_spec(),
            final(self).error_spec() == old(self).error_spec(),
            final(self).started_spec() == old(self).started_spec(),
            final(self).subs() == old(self).subs(),
    {
        let now = crate::error::now_unix_seconds();
        self.complete_at(now);
    }

    /// Seconds since the start, now.
    pub fn elapsed_seconds(&self) -> (r: Option<i128>)
        ensures
            exists|now: i64| r == #[trigger] elapsed_from(self.started_spec(), now),
    {
        let now = crate::error::now_unix_seconds();
        self.elapsed_seconds_at(now)
    }

    /// Seconds left at the pace so far, now.
    pub fn estimated_remaining_seconds(&self) -> (r: Option<i128>)
        ensures
            exists|now: i64| r == remaining_from(#[trigger] elapsed_from(self.started_spec(), now), self.progress_spec() as int),
    {
        let now = crate::error::now_unix_seconds();
        self.estimated_remaining_seconds_at(now)
    }

    /// The state of this tracker and its sub-trackers, now.
    pub fn detailed_status(&self) -> (d: DetailedStatus)
        ensures
            exists|now: i64|
                #[trigger] status_of(d, *self, now) && d.sub_operations@.len() == self.subs().len() && forall|i: int|
                    0 <= i < self.subs().len() ==> status_of(#[trigger] d.sub_operations@[i], self.subs()[i], now),
    {
        let now = crate::error::now_unix_seconds();
        self.detailed_status_at(now)
    }
}

/// Two trackers hold the same values, and their sub-trackers pairwise the
/// same progress, steps and status line.
pub open spec fn same_tracker(a: ProgressTracker, b: ProgressTracker) -> bool {
    &&& a.progress_spec() == b.progress_spec()
    &&& a.total_spec() == b.total_spec()
    &&& a.step_spec() == b.step_spec()
    &&& a.message_spec() == b.message_spec()
    &&& a.error_spec() == b.error_spec()
    &&& a.started_spec() == b.started_spec()
    &&& a.last_update_spec() == b.last_update_spec()
    &&& a.wf() == b.wf()
    &&& a.subs().len() == b.subs().len()
    &&& forall|i: int|
        0 <= i < a.subs().len() ==> {
            &&& (#[trigger] a.subs()[i]).progress_spec() == b.subs()[i].progress_spec()
            &&& a.subs()[i].step_spec() == b.subs()[i].step_spec()
            &&& a.subs()[i].total_spec() == b.subs()[i].total_spec()
            &&& a.subs()[i].message_spec() == b.subs()[i].message_spec()
        }
}

/// Sum of the progress of a list of trackers.
pub open spec fn sub_progress_sum(s: Seq<ProgressTracker>) -> int
    decreases s.len(),
{
    if s.len() == 0 {
        0
    } else {
        sub_progress_sum(s.drop_last()) + s.last().progress_spec()
    }
}

/// `d` shows the state of `t` at `now` (its own fields; sub-states aside).
pub open spec fn status_of(d: DetailedStatus, t: ProgressTracker, now: i64) -> bool {
    &&& d.progress == t.progress_spec()
    &&& d.step == t.step_spec()
    &&& d.total_steps == t.total_spec()
    &&& d.message@ == t.message_spec()
    &&& match d.error {
        Some(e) => t.error_spec() == Some(e@),
        None => t.error_spec() is None,
    }
    &&& d.started_at == t.started_spec()
    &&& d.last_update == t.last_update_spec()
    &&& d.elapsed_seconds == elapsed_from(t.started_spec(), now)
    &&& d.estimated_remaining == remaining_from(elapsed_from(t.started_spec(), now), t.progress_spec() as int)
    &&& d.sub_operations@.len() == t.subs().len()
}

/// Remaining seconds fit with room to add a time in seconds.
proof fn lemma_remaining_bound(elapsed: Option<i128>, progress: int)
    requires
        elapsed matches Some(e) ==> -0x1_0000_0000_0000_0000 <= e <= 0x1_0000_0000_0000_0000,
    ensures
        remaining_from(elapsed, progress) matches Some(r) ==> 0 <= r <= 0x1_0000_0000_0000_0000_0000_0000,
{
    match elapsed {
        Some(e) => {
            if 0 < progress < 1000 {
                let t = div_toward_zero(e * 1000, progress);
                assert(-0x1_0000_0000_0000_0000_000 <= t <= 0x1_0000_0000_0000_0000_000) by (nonlinear_arith)
                    requires
                        t == div_toward_zero(e * 1000, progress),
                        0 < progress < 1000,
                        -0x1_0000_0000_0000_0000 <= e <= 0x1_0000_0000_0000_0000,
                ;
            }
        },
        None => {},
    }
}

impl Default for ProgressTracker {
    fn default() -> (r: Self)
        ensures
            r.wf(),
            r.progress_spec() == 0,
            r.total_spec() is None,
            r.subs().len() == 0,
    {
        Self::new()
    }
}

/// Builds a tracker with or without a number of steps.
#[derive(Debug)]
pub struct ProgressTrackerBuilder {
    total_steps: Option<u32>,
}

impl ProgressTrackerBuilder {
    /// The number of steps the tracker will have.
    pub closed spec fn steps_spec(&self) -> Option<u32> {
        self.total_steps
    }

    /// No number of steps yet.
    pub fn new() -> (r: Self)
        ensures
            r.steps_spec() is None,
    {
        ProgressTrackerBuilder { total_steps: None }
    }

    /// Set the number of steps.
    pub fn with_steps(self, steps: u32) -> (r: Self)
        ensures
            r.steps_spec() == Some(steps),
    {
        ProgressTrackerBuilder { total_steps: Some(steps) }
    }

    /// The tracker.
    pub fn build(self) -> (t: ProgressTracker)
        ensures
            t.wf(),
            t.progress_spec() == 0,
            t.total_spec() == self.steps_spec(),
            t.subs().len() == 0,
    {
        match self.total_steps {
            Some(s) => ProgressTracker::with_steps(s),
            None => ProgressTracker::new(),
        }
    }
}

impl Default for ProgressTrackerBuilder {
    fn default() -> (r: Self)
        ensures
            r.steps_spec() is None,
    {
        Self::new()
    }
}

/// Ready-made trackers.
pub struct ProgressUtils;

impl ProgressUtils {
    /// A tracker over `operation_count` steps following that many fresh
    /// sub-trackers, and fresh trackers like them for the callers.
    pub fn create_batch_tracker(operation_count: u32) -> (r: (ProgressTracker, Vec<ProgressTracker>))
        ensures
            r.0.total_spec() == Some(operation_count),
            r.0.progress_spec() == 0,
            r.0.subs().len() == operation_count,
            r.1@.len() == operation_count,
            forall|i: int| 0 <= i < operation_count ==> (#[trigger] r.0.subs()[i]).progress_spec() == 0
                && r.0.subs()[i].total_spec() is None,
            forall|i: int| 0 <= i < operation_count ==> (#[trigger] r.1@[i]).progress_spec() == 0
                && r.1@[i].total_spec() is None,
    {
        let mut main = ProgressTracker::with_steps(operation_count);
        let mut subs: Vec<ProgressTracker> = Vec::new();
        let mut i: u32 = 0;
        while i < operation_count
            invariant
                i <= operation_count,
                main.total_spec() == Some(operation_count),
                main.progress_spec() == 0,
                main.subs().len() == i,
                subs@.len() == i,
                forall|k: int| 0 <= k < i ==> (#[trigger] main.subs()[k]).progress_spec() == 0
                    && main.subs()[k].total_spec() is None,
                forall|k: int| 0 <= k < i ==> (#[trigger] subs@[k]).progress_spec() == 0 && subs@[k].total_spec() is None,
            decreases operation_count - i,
        {
            main.add_sub_tracker(ProgressTracker::new());
            subs.push(ProgressTracker::new());
            i = i + 1;
        }
        (main, subs)
    }
}

} // verus!
