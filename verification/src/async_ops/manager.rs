//! The bookkeeping of background tasks: the tasks known, a queue of those
//! waiting, those running, and how each ended. Running a task is the
//! caller's part: each call here hands back the status changes it made, and
//! a change to `Running` asks the caller to run that task and to report its
//! end through `complete_operation_at`. Times are Unix seconds.
use vstd::prelude::*;
use crate::async_ops::operations::{
    same_operation, AsyncOperation, OperationData, OperationError, OperationResult, OperationType,
};
use crate::models::{same_product, same_store};
use crate::table::views_of;
use crate::text::{owned, str_eq};

verus! {

broadcast use vstd::string::group_string_axioms;

/// Where a task stands.
#[derive(Debug, Clone, Copy, PartialEq, Eq, Structural)]
pub enum OperationStatus {
    Pending,
    Running,
    Completed,
    Failed,
    Cancelled,
    Timeout,
}

/// A task's status changed.
#[derive(Debug, Clone)]
pub struct StatusChange {
    pub operation_id: String,
    pub status: OperationStatus,
}

/// Counts over the tasks seen. The average run time is in milliseconds; the
/// success rate in hundredths of a percent.
#[derive(Debug, Clone)]
pub struct OperationStats {
    pub total_operations: u64,
    pub completed_operations: u64,
    pub failed_operations: u64,
    pub cancelled_operations: u64,
    pub average_execution_time_ms: i128,
    pub operations_per_hour: u64,
    pub success_rate: u128,
    pub current_queue_size: usize,
    pub peak_queue_size: usize,
    pub operation_type_counts: Vec<(OperationType, u64)>,
}

/// How a task ended, without its data.
#[derive(Debug, Clone, Copy, PartialEq, Eq, Structural)]
pub enum ResultKind {
    Success,
    Failure,
    Cancelled,
}

/// The kind of a result.
pub open spec fn kind_of(r: OperationResult) -> ResultKind {
    match r {
        OperationResult::Success(_) => ResultKind::Success,
        OperationResult::Failure(_) => ResultKind::Failure,
        OperationResult::Cancelled => ResultKind::Cancelled,
    }
}

/// Two results hold the same values.
pub open spec fn same_result(a: OperationResult, b: OperationResult) -> bool {
    match (a, b) {
        (OperationResult::Success(x), OperationResult::Success(y)) => same_data(x, y),
        (OperationResult::Failure(x), OperationResult::Failure(y)) => x == y,
        (OperationResult::Cancelled, OperationResult::Cancelled) => true,
        _ => false,
    }
}

/// Two pieces of task data hold the same values.
pub open spec fn same_data(a: OperationData, b: OperationData) -> bool {
    match (a, b) {
        (OperationData::Products(x), OperationData::Products(y)) => x@.len() == y@.len() && forall|i: int|
            0 <= i < x@.len() ==> same_product(#[trigger] x@[i], y@[i]),
        (OperationData::Stores(x), OperationData::Stores(y)) => x@.len() == y@.len() && forall|i: int|
            0 <= i < x@.len() ==> same_store(#[trigger] x@[i], y@[i]),
        (OperationData::PriceRecords(x), OperationData::PriceRecords(y)) => x@ == y@,
        (OperationData::Users(x), OperationData::Users(y)) => x@ == y@,
        (OperationData::Text(x), OperationData::Text(y)) => x@ == y@,
        (OperationData::Bytes(x), OperationData::Bytes(y)) => x@ == y@,
        (OperationData::Json(x), OperationData::Json(y)) => x@ == y@,
        (OperationData::Count(x), OperationData::Count(y)) => x == y,
        (OperationData::Bool(x), OperationData::Bool(y)) => x == y,
        (OperationData::Empty, OperationData::Empty) => true,
        _ => false,
    }
}

/// A copy of task data.
pub fn copy_data(d: &OperationData) -> (r: OperationData)
    ensures
        same_data(r, *d),
{
    match d {
        OperationData::Products(v) => {
            let mut out: Vec<crate::models::Product> = Vec::new();
            let mut i: usize = 0;
            while i < v.len()
                invariant
                    i <= v@.len(),
                    out@.len() == i,
                    forall|k: int| 0 <= k < i ==> same_product(#[trigger] out@[k], v@[k]),
                decreases v.len() - i,
            {
                out.push(v[i].copy());
                i = i + 1;
            }
            OperationData::Products(out)
        },
        OperationData::Stores(v) => {
            let mut out: Vec<crate::models::Store> = Vec::new();
            let mut i: usize = 0;
            while i < v.len()
                invariant
                    i <= v@.len(),
                    out@.len() == i,
                    forall|k: int| 0 <= k < i ==> same_store(#[trigger] out@[k], v@[k]),
                decreases v.len() - i,
            {
                out.push(crate::table::Record::duplicate(&v[i]));
                i = i + 1;
            }
            OperationData::Stores(out)
        },
        OperationData::PriceRecords(v) => OperationData::PriceRecords(crate::models::copy_price_records(v)),
        OperationData::Users(v) => {
            let mut out: Vec<crate::models::User> = Vec::new();
            let mut i: usize = 0;
            while i < v.len()
                invariant
                    i <= v@.len(),
                    out@ == v@.subrange(0, i as int),
                decreases v.len() - i,
            {
                out.push(v[i].duplicate());
                assert(out@ =~= v@.subrange(0, i + 1));
                i = i + 1;
            }
            assert(out@ =~= v@);
            OperationData::Users(out)
        },
        OperationData::Text(s) => OperationData::Text(s.clone()),
        OperationData::Bytes(b) => {
            let mut out: Vec<u8> = Vec::new();
            let mut i: usize = 0;
            while i < b.len()
                invariant
                    i <= b@.len(),
                    out@ == b@.subrange(0, i as int),
                decreases b.len() - i,
            {
                out.push(b[i]);
                i = i + 1;
            }
            assert(out@ =~= b@);
            OperationData::Bytes(out)
        },
        OperationData::Json(s) => OperationData::Json(s.clone()),
        OperationData::Count(n) => OperationData::Count(*n),
        OperationData::Bool(x) => OperationData::Bool(*x),
        OperationData::Empty => OperationData::Empty,
    }
}

/// A copy of a result.
pub fn copy_result(r: &OperationResult) -> (c: OperationResult)
    ensures
        same_result(c, *r),
{
    match r {
        OperationResult::Success(d) => OperationResult::Success(copy_data(d)),
        OperationResult::Failure(e) => OperationResult::Failure(copy_error(e)),
        OperationResult::Cancelled => OperationResult::Cancelled,
    }
}

/// A copy of a task error.
fn copy_error(e: &OperationError) -> (c: OperationError)
    ensures
        c == *e,
{
    match e {
        OperationError::NetworkError(m) => OperationError::NetworkError(m.clone()),
        OperationError::DatabaseError(m) => OperationError::DatabaseError(m.clone()),
        OperationError::PermissionDenied(m) => OperationError::PermissionDenied(m.clone()),
        OperationError::InvalidInput(m) => OperationError::InvalidInput(m.clone()),
        OperationError::ProcessingError(m) => OperationError::ProcessingError(m.clone()),
        OperationError::TimeoutError(m) => OperationError::TimeoutError(m.clone()),
        OperationError::CancellationError(m) => OperationError::CancellationError(m.clone()),
        OperationError::ResourceUnavailable(m) => OperationError::ResourceUnavailable(m.clone()),
        OperationError::InternalError(m) => OperationError::InternalError(m.clone()),
    }
}

// ---------------------------------------------------------------------------
// The model
// ---------------------------------------------------------------------------

/// The ids of the tasks.
pub open spec fn op_ids(ops: Seq<AsyncOperation>) -> Seq<Seq<char>> {
    ops.map_values(|o: AsyncOperation| o.id@)
}

/// No id twice in a list.
pub open spec fn distinct(s: Seq<Seq<char>>) -> bool {
    forall|a: int, b: int| 0 <= a < s.len() && 0 <= b < s.len() && a != b ==> #[trigger] s[a] != #[trigger] s[b]
}

/// The position of the task with an id.
pub open spec fn op_index(ops: Seq<AsyncOperation>, id: Seq<char>) -> int {
    choose|i: int| 0 <= i < ops.len() && #[trigger] ops[i].id@ == id
}

/// A task with this id is known.
pub open spec fn has_op(ops: Seq<AsyncOperation>, id: Seq<char>) -> bool {
    exists|i: int| 0 <= i < ops.len() && #[trigger] ops[i].id@ == id
}

/// The task with this id is known and each task it waits for is done.
pub open spec fn deps_ok(ops: Seq<AsyncOperation>, id: Seq<char>, completed: Seq<Seq<char>>) -> bool {
    has_op(ops, id) && forall|k: int|
        0 <= k < ops[op_index(ops, id)].dependencies@.len() ==> completed.contains(
            #[trigger] ops[op_index(ops, id)].dependencies@[k]@,
        )
}

/// `s` with `x` added unless present.
pub open spec fn set_insert(s: Seq<Seq<char>>, x: Seq<char>) -> Seq<Seq<char>> {
    if s.contains(x) {
        s
    } else {
        s.push(x)
    }
}

/// `s` without `x`.
pub open spec fn set_remove(s: Seq<Seq<char>>, x: Seq<char>) -> Seq<Seq<char>>
    decreases s.len(),
{
    if s.len() == 0 {
        s
    } else if s.last() == x {
        set_remove(s.drop_last(), x)
    } else {
        set_remove(s.drop_last(), x).push(s.last())
    }
}

/// Working through the queue: while fewer than `max` run, the head of the
/// queue starts when what it waits for is done, is put back last (and the
/// work stops) when not, and is dropped when unknown. Gives the queue, the
/// running set and the tasks started, in order.
pub open spec fn pq(
    ops: Seq<AsyncOperation>,
    queue: Seq<Seq<char>>,
    running: Seq<Seq<char>>,
    completed: Seq<Seq<char>>,
    max: int,
) -> (Seq<Seq<char>>, Seq<Seq<char>>, Seq<Seq<char>>)
    decreases queue.len(),
{
    if running.len() >= max || queue.len() == 0 {
        (queue, running, Seq::empty())
    } else {
        let id = queue[0];
        let rest = queue.drop_first();
        if has_op(ops, id) {
            if deps_ok(ops, id, completed) {
                let r = pq(ops, rest, set_insert(running, id), completed, max);
                (r.0, r.1, seq![id] + r.2)
            } else {
                (rest.push(id), running, Seq::empty())
            }
        } else {
            pq(ops, rest, running, completed, max)
        }
    }
}

/// After task `done` ended: each of the first `n` tasks that waits for it,
/// all of whose waits are over, and that is not queued, joins the queue.
pub open spec fn requeue(
    ops: Seq<AsyncOperation>,
    n: int,
    queue: Seq<Seq<char>>,
    completed: Seq<Seq<char>>,
    done: Seq<char>,
) -> Seq<Seq<char>>
    decreases n,
{
    if n <= 0 {
        queue
    } else {
        let q = requeue(ops, n - 1, queue, completed, done);
        let o = ops[n - 1];
        if views_of(o.dependencies@).contains(done) && deps_ok(ops, o.id@, completed) && !q.contains(o.id@) {
            q.push(o.id@)
        } else {
            q
        }
    }
}

/// The results as (id, kind) pairs.
pub open spec fn result_kinds(v: Seq<(String, OperationResult)>) -> Seq<(Seq<char>, ResultKind)> {
    v.map_values(|e: (String, OperationResult)| (e.0@, kind_of(e.1)))
}

/// The kind of the result stored for an id, if any.
pub open spec fn result_kind(v: Seq<(Seq<char>, ResultKind)>, id: Seq<char>) -> Option<ResultKind> {
    if exists|i: int| 0 <= i < v.len() && (#[trigger] v[i]).0 == id {
        Some(v[choose|i: int| 0 <= i < v.len() && (#[trigger] v[i]).0 == id].1)
    } else {
        None
    }
}

/// The results with `kind` stored for `id`: in place of its result, or
/// added last.
pub open spec fn put_kind(v: Seq<(Seq<char>, ResultKind)>, id: Seq<char>, kind: ResultKind) -> Seq<(Seq<char>, ResultKind)> {
    if exists|i: int| 0 <= i < v.len() && (#[trigger] v[i]).0 == id {
        v.update(choose|i: int| 0 <= i < v.len() && (#[trigger] v[i]).0 == id, (id, kind))
    } else {
        v.push((id, kind))
    }
}

/// The status of a task from the lists and results.
pub open spec fn status_from(
    queue: Seq<Seq<char>>,
    running: Seq<Seq<char>>,
    completed: Seq<Seq<char>>,
    failed: Seq<Seq<char>>,
    results: Seq<(Seq<char>, ResultKind)>,
    id: Seq<char>,
) -> Option<OperationStatus> {
    if completed.contains(id) {
        Some(OperationStatus::Completed)
    } else if failed.contains(id) {
        Some(OperationStatus::Failed)
    } else if running.contains(id) {
        Some(OperationStatus::Running)
    } else if queue.contains(id) {
        Some(OperationStatus::Pending)
    } else {
        match result_kind(results, id) {
            Some(ResultKind::Cancelled) => Some(OperationStatus::Cancelled),
            Some(ResultKind::Success) => Some(OperationStatus::Completed),
            Some(ResultKind::Failure) => Some(OperationStatus::Failed),
            None => None,
        }
    }
}

/// No task kind is counted twice.
pub open spec fn types_distinct(c: Seq<(OperationType, u64)>) -> bool {
    forall|a: int, b: int| 0 <= a < c.len() && 0 <= b < c.len() && a != b ==> #[trigger] c[a].0 != #[trigger] c[b].0
}

/// Status changes as plain values.
pub open spec fn changes_view(v: Seq<StatusChange>) -> Seq<(Seq<char>, OperationStatus)> {
    v.map_values(|c: StatusChange| (c.operation_id@, c.status))
}

/// A change to `Running` for each id.
pub open spec fn started_changes(ids: Seq<Seq<char>>) -> Seq<(Seq<char>, OperationStatus)> {
    ids.map_values(|id: Seq<char>| (id, OperationStatus::Running))
}

/// A handle on a submitted task.
#[derive(Debug, Clone)]
pub struct OperationHandle {
    pub id: String,
}

/// The task bookkeeping and its settings.
pub struct AsyncManager {
    operations: Vec<AsyncOperation>,
    operation_results: Vec<(String, OperationResult)>,
    operation_queue: Vec<String>,
    running_operations: Vec<String>,
    completed_operations: Vec<String>,
    failed_operations: Vec<String>,
    max_concurrent_operations: usize,
    cleanup_interval_hours: u64,
    auto_retry_enabled: bool,
    operation_timeout_seconds: u64,
    stats: OperationStats,
    last_cleanup: i64,
}

impl AsyncManager {
    /// The known tasks, in the order first submitted.
    pub closed spec fn ops(&self) -> Seq<AsyncOperation> {
        self.operations@
    }

    /// The stored results by kind.
    pub closed spec fn kinds(&self) -> Seq<(Seq<char>, ResultKind)> {
        result_kinds(self.operation_results@)
    }

    /// The queue, head first.
    pub closed spec fn queue(&self) -> Seq<Seq<char>> {
        views_of(self.operation_queue@)
    }

    /// The running tasks.
    pub closed spec fn running(&self) -> Seq<Seq<char>> {
        views_of(self.running_operations@)
    }

    /// The tasks that succeeded, in order.
    pub closed spec fn completed(&self) -> Seq<Seq<char>> {
        views_of(self.completed_operations@)
    }

    /// The tasks that failed, in order.
    pub closed spec fn failed(&self) -> Seq<Seq<char>> {
        views_of(self.failed_operations@)
    }

    /// How many tasks may run at once.
    pub closed spec fn max_concurrent(&self) -> usize {
        self.max_concurrent_operations
    }

    /// Whether a failed task is queued again while it has retries left.
    pub closed spec fn auto_retry(&self) -> bool {
        self.auto_retry_enabled
    }

    /// Hours between clean-ups.
    pub closed spec fn cleanup_hours(&self) -> u64 {
        self.cleanup_interval_hours
    }

    /// When the last clean-up ran.
    pub closed spec fn last_cleanup_spec(&self) -> i64 {
        self.last_cleanup
    }

    /// The counters kept.
    pub closed spec fn stats_spec(&self) -> OperationStats {
        self.stats
    }

    /// The status of a task.
    pub open spec fn status_spec(&self, id: Seq<char>) -> Option<OperationStatus> {
        status_from(self.queue(), self.running(), self.completed(), self.failed(), self.kinds(), id)
    }

    /// Ids are unique among tasks and among results, and no task runs twice.
    pub closed spec fn wf(&self) -> bool {
        &&& distinct(op_ids(self.operations@))
        &&& distinct(result_kinds(self.operation_results@).map_values(|e: (Seq<char>, ResultKind)| e.0))
        &&& distinct(views_of(self.running_operations@))
        &&& types_distinct(self.stats.operation_type_counts@)
    }

    /// Nothing known; five at once, a day between clean-ups, retries on,
    /// five minutes per task.
    pub fn new() -> (r: Self)
        ensures
            r.wf(),
            r.ops().len() == 0,
            r.kinds().len() == 0,
            r.queue().len() == 0,
            r.running().len() == 0,
            r.completed().len() == 0,
            r.failed().len() == 0,
            r.max_concurrent() == 5,
            r.cleanup_hours() == 24,
            r.auto_retry(),
            r.stats_spec().total_operations == 0,
    {
        let r = AsyncManager {
            operations: Vec::new(),
            operation_results: Vec::new(),
            operation_queue: Vec::new(),
            running_operations: Vec::new(),
            completed_operations: Vec::new(),
            failed_operations: Vec::new(),
            max_concurrent_operations: 5,
            cleanup_interval_hours: 24,
            auto_retry_enabled: true,
            operation_timeout_seconds: 300,
            stats: OperationStats {
                total_operations: 0,
                completed_operations: 0,
                failed_operations: 0,
                cancelled_operations: 0,
                average_execution_time_ms: 0,
                operations_per_hour: 0,
                success_rate: 0,
                current_queue_size: 0,
                peak_queue_size: 0,
                operation_type_counts: Vec::new(),
            },
            last_cleanup: crate::error::now_unix_seconds(),
        };
        assert(r.queue() =~= Seq::<Seq<char>>::empty());
        assert(r.running() =~= Seq::<Seq<char>>::empty());
        assert(r.completed() =~= Seq::<Seq<char>>::empty());
        assert(r.failed() =~= Seq::<Seq<char>>::empty());
        r
    }

    /// The same manager with other settings.
    pub fn configure(self, max_concurrent: usize, cleanup_interval_hours: u64, auto_retry: bool, timeout_seconds: u64) -> (r: Self)
        requires
            self.wf(),
        ensures
            r.wf(),
            r.max_concurrent() == max_concurrent,
            r.cleanup_hours() == cleanup_interval_hours,
            r.auto_retry() == auto_retry,
            r.ops() == self.ops(),
            r.kinds() == self.kinds(),
            r.queue() == self.queue(),
            r.running() == self.running(),
            r.completed() == self.completed(),
            r.failed() == self.failed(),
    {
        AsyncManager {
            max_concurrent_operations: max_concurrent,
            cleanup_interval_hours,
            auto_retry_enabled: auto_retry,
            operation_timeout_seconds: timeout_seconds,
            ..self
        }
    }

    /// The position of the task with an id.
    fn find_op(&self, id: &str) -> (r: Option<usize>)
        requires
            self.wf(),
        ensures
            match r {
                Some(i) => i < self.ops().len() && self.ops()[i as int].id@ == id@ && has_op(self.ops(), id@) && op_index(
                    self.ops(),
                    id@,
                ) == i,
                None => !has_op(self.ops(), id@),
            },
    {
        let mut i: usize = 0;
        while i < self.operations.len()
            invariant
                self.wf(),
                i <= self.operations@.len(),
                forall|k: int| 0 <= k < i ==> (#[trigger] self.operations@[k]).id@ != id@,
            decreases self.operations.len() - i,
        {
            if str_eq(self.operations[i].id.as_str(), id) {
                proof {
                    assert(self.ops()[i as int].id@ == id@);
                    assert(has_op(self.ops(), id@));
                    let j = op_index(self.ops(), id@);
                    assert(op_ids(self.operations@)[i as int] == id@);
                    assert(op_ids(self.operations@)[j] == id@);
                }
                return Some(i);
            }
            i = i + 1;
        }
        None
    }

    /// Whether the task with an id is known and what it waits for is done.
    fn are_dependencies_satisfied(&self, id: &str) -> (b: bool)
        requires
            self.wf(),
        ensures
            b == deps_ok(self.ops(), id@, self.completed()),
    {
        match self.find_op(id) {
            Some(i) => self.operations[i].dependencies_satisfied(&self.completed_operations),
            None => false,
        }
    }

    /// Work through the queue; the tasks started, in order.
    fn process_queue(&mut self) -> (started: Vec<StatusChange>)
        requires
            old(self).wf(),
        ensures
            final(self).wf(),
            ({
                let r = pq(
                    old(self).ops(),
                    old(self).queue(),
                    old(self).running(),
                    old(self).completed(),
                    old(self).max_concurrent() as int,
                );
                &&& final(self).queue() == r.0
                &&& final(self).running() == r.1
                &&& changes_view(started@) == started_changes(r.2)
            }),
            final(self).ops() == old(self).ops(),
            final(self).kinds() == old(self).kinds(),
            final(self).operation_results@ == old(self).operation_results@,
            final(self).completed() == old(self).completed(),
            final(self).failed() == old(self).failed(),
            final(self).max_concurrent() == old(self).max_concurrent(),
            final(self).auto_retry() == old(self).auto_retry(),
            final(self).cleanup_hours() == old(self).cleanup_hours(),
            final(self).last_cleanup_spec() == old(self).last_cleanup_spec(),
            final(self).stats_spec() == old(self).stats_spec(),
    {
        let ghost r0 = pq(
            self.ops(),
            self.queue(),
            self.running(),
            self.completed(),
            self.max_concurrent_operations as int,
        );
        let mut started: Vec<StatusChange> = Vec::new();
        while self.running_operations.len() < self.max_concurrent_operations && self.operation_queue.len() > 0
            invariant_except_break
                self.wf(),
                r0 == ({
                    let r = pq(self.ops(), self.queue(), self.running(), self.completed(), self.max_concurrent() as int);
                    (r.0, r.1, changes_view(started@).map_values(|c: (Seq<char>, OperationStatus)| c.0) + r.2)
                }),
                changes_view(started@) == started_changes(changes_view(started@).map_values(|c: (Seq<char>, OperationStatus)| c.0)),
                self.ops() == old(self).ops(),
                self.kinds() == old(self).kinds(),
                self.operation_results@ == old(self).operation_results@,
                self.completed() == old(self).completed(),
                self.failed() == old(self).failed(),
                self.max_concurrent() == old(self).max_concurrent(),
                self.auto_retry() == old(self).auto_retry(),
                self.cleanup_hours() == old(self).cleanup_hours(),
                self.last_cleanup_spec() == old(self).last_cleanup_spec(),
                self.stats_spec() == old(self).stats_spec(),
            ensures
                self.wf(),
                r0.0 == self.queue(),
                r0.1 == self.running(),
                changes_view(started@) == started_changes(r0.2),
                self.ops() == old(self).ops(),
                self.kinds() == old(self).kinds(),
                self.operation_results@ == old(self).operation_results@,
                self.completed() == old(self).completed(),
                self.failed() == old(self).failed(),
                self.max_concurrent() == old(self).max_concurrent(),
                self.auto_retry() == old(self).auto_retry(),
                self.cleanup_hours() == old(self).cleanup_hours(),
                self.last_cleanup_spec() == old(self).last_cleanup_spec(),
                self.stats_spec() == old(self).stats_spec(),
            decreases self.operation_queue.len(),
        {
            let ghost q = self.queue();
            let ghost run = self.running();
            let ghost st = changes_view(started@).map_values(|c: (Seq<char>, OperationStatus)| c.0);
            let id = self.operation_queue.remove(0);
            assert(id@ == q[0]);
            assert(self.queue() =~= q.drop_first());
            match self.find_op(id.as_str()) {
                Some(_) => {
                    if self.are_dependencies_satisfied(id.as_str()) {
                        let present = crate::table::holds_string(&self.running_operations, id.as_str());
                        if !present {
                            self.running_operations.push(id.clone());
                            assert(self.running() =~= run.push(id@));
                            assert(distinct(self.running()));
                        }
                        let ghost before = started@;
                        started.push(StatusChange { operation_id: id, status: OperationStatus::Running });
                        assert(changes_view(started@) =~= changes_view(before).push((q[0], OperationStatus::Running)));
                        assert(changes_view(started@).map_values(|c: (Seq<char>, OperationStatus)| c.0) =~= st.push(q[0]));
                        assert(st.push(q[0]) + pq(self.ops(), self.queue(), self.running(), self.completed(), self.max_concurrent() as int).2
                            =~= st + (seq![q[0]] + pq(self.ops(), self.queue(), self.running(), self.completed(), self.max_concurrent() as int).2));
                        assert(changes_view(started@) =~= started_changes(changes_view(started@).map_values(|c: (Seq<char>, OperationStatus)| c.0)));
                    } else {
                        self.operation_queue.push(id);
                        assert(self.queue() =~= q.drop_first().push(q[0]));
                        assert(st + Seq::<Seq<char>>::empty() =~= st);
                        break;
                    }
                },
                None => {},
            }
        }
        proof {
            if !(self.running_operations.len() < self.max_concurrent_operations && self.operation_queue.len() > 0) {
                let ghost st = changes_view(started@).map_values(|c: (Seq<char>, OperationStatus)| c.0);
                assert(st + Seq::<Seq<char>>::empty() =~= st);
            }
        }
        started
    }
}


/// The tasks with `op` stored: in place of the one with its id, or added
/// last.
pub open spec fn put_op(ops: Seq<AsyncOperation>, op: AsyncOperation) -> Seq<AsyncOperation> {
    if has_op(ops, op.id@) {
        ops.update(op_index(ops, op.id@), op)
    } else {
        ops.push(op)
    }
}

/// The counts by task kind after one more task of kind `t`.
pub open spec fn bump_type(counts: Seq<(OperationType, u64)>, t: OperationType) -> Seq<(OperationType, u64)> {
    if exists|i: int| 0 <= i < counts.len() && (#[trigger] counts[i]).0 == t {
        let i = choose|i: int| 0 <= i < counts.len() && (#[trigger] counts[i]).0 == t;
        counts.update(i, (t, if counts[i].1 < u64::MAX { (counts[i].1 + 1) as u64 } else { counts[i].1 }))
    } else {
        counts.push((t, 1u64))
    }
}

/// The position of the first `x` in `s`, or `s.len()`.
pub open spec fn first_index(s: Seq<Seq<char>>, x: Seq<char>) -> int
    decreases s.len(),
{
    if s.len() == 0 {
        0
    } else if s[0] == x {
        0
    } else {
        1 + first_index(s.drop_first(), x)
    }
}

/// The tasks with the retry count of the one with `id` raised by one.
pub open spec fn retried(ops: Seq<AsyncOperation>, id: Seq<char>) -> Seq<AsyncOperation> {
    let i = op_index(ops, id);
    ops.update(i, AsyncOperation { retry_count: (ops[i].retry_count + 1) as u32, ..ops[i] })
}

/// Whether a failed task goes back to the queue.
pub open spec fn retries(ops: Seq<AsyncOperation>, id: Seq<char>, kind: ResultKind, auto_retry: bool) -> bool {
    kind == ResultKind::Failure && auto_retry && has_op(ops, id) && ops[op_index(ops, id)].retry_count
        < ops[op_index(ops, id)].max_retries
}

/// The status shown when a task ends without a retry.
pub open spec fn end_status(kind: ResultKind) -> OperationStatus {
    match kind {
        ResultKind::Success => OperationStatus::Completed,
        ResultKind::Failure => OperationStatus::Failed,
        ResultKind::Cancelled => OperationStatus::Cancelled,
    }
}

/// The counters after a task that ran `duration` seconds ended: one more
/// run, the average over the runs updated (left alone where a count or sum
/// would leave its type).
pub open spec fn stats_after_run(st: OperationStats, duration: Option<i128>) -> OperationStats {
    match duration {
        Some(d) => {
            let prod = st.average_execution_time_ms * st.completed_operations;
            let total = prod + d * 1000;
            let n = st.completed_operations + 1;
            if n <= u64::MAX && i128::MIN <= prod <= i128::MAX && i128::MIN < total <= i128::MAX {
                OperationStats {
                    completed_operations: n as u64,
                    average_execution_time_ms: crate::auth::session::div_toward_zero(total, n) as i128,
                    ..st
                }
            } else {
                st
            }
        },
        None => st,
    }
}

/// How long the task with `id` ran, at `now`.
pub open spec fn run_of(ops: Seq<AsyncOperation>, id: Seq<char>, now: i64) -> Option<i128> {
    if has_op(ops, id) {
        crate::async_ops::operations::run_time(ops[op_index(ops, id)].started_at, ops[op_index(ops, id)].completed_at, now)
    } else {
        None
    }
}

impl AsyncManager {
    /// Store a task in place of the one with its id, or last.
    fn put_operation(&mut self, op: AsyncOperation)
        requires
            old(self).wf(),
        ensures
            final(self).wf(),
            final(self).ops() == put_op(old(self).ops(), op),
            final(self).kinds() == old(self).kinds(),
            final(self).queue() == old(self).queue(),
            final(self).running() == old(self).running(),
            final(self).completed() == old(self).completed(),
            final(self).failed() == old(self).failed(),
            final(self).max_concurrent() == old(self).max_concurrent(),
            final(self).auto_retry() == old(self).auto_retry(),
            final(self).cleanup_hours() == old(self).cleanup_hours(),
            final(self).last_cleanup_spec() == old(self).last_cleanup_spec(),
            final(self).stats_spec() == old(self).stats_spec(),
    {
        let ghost before = self.ops();
        match self.find_op(op.id.as_str()) {
            Some(i) => {
                self.operations.set(i, op);
                assert forall|a: int, b: int|
                    0 <= a < op_ids(self.operations@).len() && 0 <= b < op_ids(self.operations@).len() && a != b implies
                    #[trigger] op_ids(self.operations@)[a] != #[trigger] op_ids(self.operations@)[b] by {
                    assert(op_ids(before)[a] == before[a].id@);
                    assert(op_ids(before)[b] == before[b].id@);
                    if a != i && b != i {
                        assert(op_ids(before)[a] != op_ids(before)[b]);
                    } else if a == i {
                        assert(op_ids(before)[i as int] != op_ids(before)[b]);
                    } else {
                        assert(op_ids(before)[a] != op_ids(before)[i as int]);
                    }
                }
            },
            None => {
                self.operations.push(op);
                assert forall|a: int, b: int|
                    0 <= a < op_ids(self.operations@).len() && 0 <= b < op_ids(self.operations@).len() && a != b implies
                    #[trigger] op_ids(self.operations@)[a] != #[trigger] op_ids(self.operations@)[b] by {
                    if a < before.len() && b < before.len() {
                        assert(op_ids(before)[a] != op_ids(before)[b]);
                    } else if a < before.len() {
                        assert(before[a].id@ == op_ids(before)[a]);
                    } else {
                        assert(before[b].id@ == op_ids(before)[b]);
                    }
                }
            },
        }
    }

    /// The position of the count of kind `t`.
    fn find_type(c: &Vec<(OperationType, u64)>, t: OperationType) -> (r: Option<usize>)
        requires
            types_distinct(c@),
        ensures
            match r {
                Some(i) => i < c@.len() && c@[i as int].0 == t && (choose|w: int| 0 <= w < c@.len() && (#[trigger] c@[w]).0
                    == t) == i,
                None => !(exists|w: int| 0 <= w < c@.len() && (#[trigger] c@[w]).0 == t),
            },
    {
        let mut i: usize = 0;
        while i < c.len()
            invariant
                types_distinct(c@),
                i <= c@.len(),
                forall|k: int| 0 <= k < i ==> (#[trigger] c@[k]).0 != t,
            decreases c.len() - i,
        {
            if c[i].0 == t {
                proof {
                    assert(c@[i as int].0 == t);
                    let w = choose|w: int| 0 <= w < c@.len() && (#[trigger] c@[w]).0 == t;
                    assert(w == i);
                }
                return Some(i);
            }
            i = i + 1;
        }
        None
    }

    /// Count a submission of kind `t`.
    fn count_submission(&mut self, t: OperationType)
        requires
            old(self).wf(),
        ensures
            final(self).stats_spec().total_operations == (if old(self).stats_spec().total_operations < u64::MAX {
                old(self).stats_spec().total_operations + 1
            } else {
                old(self).stats_spec().total_operations as int
            }),
            final(self).stats_spec().operation_type_counts@ == bump_type(
                old(self).stats_spec().operation_type_counts@,
                t,
            ),
            final(self).stats_spec().completed_operations == old(self).stats_spec().completed_operations,
            final(self).stats_spec().average_execution_time_ms == old(self).stats_spec().average_execution_time_ms,
            final(self).ops() == old(self).ops(),
            final(self).kinds() == old(self).kinds(),
            final(self).queue() == old(self).queue(),
            final(self).running() == old(self).running(),
            final(self).completed() == old(self).completed(),
            final(self).failed() == old(self).failed(),
            final(self).max_concurrent() == old(self).max_concurrent(),
            final(self).auto_retry() == old(self).auto_retry(),
            final(self).cleanup_hours() == old(self).cleanup_hours(),
            final(self).last_cleanup_spec() == old(self).last_cleanup_spec(),
            final(self).wf(),
    {
        if self.stats.total_operations < u64::MAX {
            self.stats.total_operations = self.stats.total_operations + 1;
        }
        let ghost c0 = self.stats.operation_type_counts@;
        match Self::find_type(&self.stats.operation_type_counts, t) {
            Some(i) => {
                let n = self.stats.operation_type_counts[i].1;
                let n2 = if n < u64::MAX {
                    n + 1
                } else {
                    n
                };
                self.stats.operation_type_counts.set(i, (t, n2));
                assert forall|a: int, b: int|
                    0 <= a < self.stats.operation_type_counts@.len() && 0 <= b < self.stats.operation_type_counts@.len()
                        && a != b implies #[trigger] self.stats.operation_type_counts@[a].0
                    != #[trigger] self.stats.operation_type_counts@[b].0 by {
                    assert(c0[a].0 != c0[b].0);
                }
            },
            None => {
                self.stats.operation_type_counts.push((t, 1));
                assert forall|a: int, b: int|
                    0 <= a < self.stats.operation_type_counts@.len() && 0 <= b < self.stats.operation_type_counts@.len()
                        && a != b implies #[trigger] self.stats.operation_type_counts@[a].0
                    != #[trigger] self.stats.operation_type_counts@[b].0 by {
                    if a < c0.len() && b < c0.len() {
                        assert(c0[a].0 != c0[b].0);
                    }
                }
            },
        }
    }
}


impl AsyncManager {
    /// Take on a task: store it, queue it when what it waits for is done,
    /// count it, and work through the queue. Gives its handle and the status
    /// changes: `Pending` for it, then `Running` for each task started.
    pub fn submit_operation(&mut self, operation: AsyncOperation) -> (r: (OperationHandle, Vec<StatusChange>))
        requires
            old(self).wf(),
        ensures
            final(self).wf(),
            r.0.id@ == operation.id@,
            final(self).ops() == put_op(old(self).ops(), operation),
            ({
                let ops1 = put_op(old(self).ops(), operation);
                let q1 = if deps_ok(ops1, operation.id@, old(self).completed()) {
                    old(self).queue().push(operation.id@)
                } else {
                    old(self).queue()
                };
                let p = pq(ops1, q1, old(self).running(), old(self).completed(), old(self).max_concurrent() as int);
                &&& final(self).queue() == p.0
                &&& final(self).running() == p.1
                &&& changes_view(r.1@) == seq![(operation.id@, OperationStatus::Pending)] + started_changes(p.2)
            }),
            final(self).kinds() == old(self).kinds(),
            final(self).completed() == old(self).completed(),
            final(self).failed() == old(self).failed(),
            final(self).stats_spec().total_operations == (if old(self).stats_spec().total_operations < u64::MAX {
                old(self).stats_spec().total_operations + 1
            } else {
                old(self).stats_spec().total_operations as int
            }),
            final(self).stats_spec().operation_type_counts@ == bump_type(
                old(self).stats_spec().operation_type_counts@,
                operation.operation_type,
            ),
            final(self).max_concurrent() == old(self).max_concurrent(),
            final(self).auto_retry() == old(self).auto_retry(),
            final(self).cleanup_hours() == old(self).cleanup_hours(),
    {
        let id = operation.id.clone();
        let t = operation.operation_type;
        let ghost opv = operation;
        self.put_operation(operation);
        if self.are_dependencies_satisfied(id.as_str()) {
            self.operation_queue.push(id.clone());
            assert(self.queue() =~= old(self).queue().push(id@));
        }
        self.count_submission(t);
        let mut changes: Vec<StatusChange> = Vec::new();
        changes.push(StatusChange { operation_id: id.clone(), status: OperationStatus::Pending });
        let mut started = self.process_queue();
        let ghost c0 = changes@;
        let ghost s0 = started@;
        changes.append(&mut started);
        assert(changes@ =~= c0 + s0);
        assert(changes_view(changes@) =~= changes_view(c0) + changes_view(s0));
        (OperationHandle { id }, changes)
    }
}


/// `first_index` finds `x` when it is there.
proof fn lemma_first_index(s: Seq<Seq<char>>, x: Seq<char>)
    ensures
        0 <= first_index(s, x) <= s.len(),
        first_index(s, x) < s.len() <==> s.contains(x),
        first_index(s, x) < s.len() ==> s[first_index(s, x)] == x,
    decreases s.len(),
{
    if s.len() > 0 && s[0] != x {
        lemma_first_index(s.drop_first(), x);
        if s.drop_first().contains(x) {
            let k = choose|k: int| 0 <= k < s.drop_first().len() && s.drop_first()[k] == x;
            assert(s[k + 1] == x);
        }
        if s.contains(x) {
            let k = choose|k: int| 0 <= k < s.len() && s[k] == x;
            assert(k > 0);
            assert(s.drop_first()[k - 1] == x);
        }
    } else if s.len() > 0 {
        assert(s[0] == x);
    }
}

/// The position of the first string equal to `x`, or the length.
fn first_position(v: &Vec<String>, x: &str) -> (p: usize)
    ensures
        p == first_index(views_of(v@), x@),
        p <= v@.len(),
        p < v@.len() <==> views_of(v@).contains(x@),
{
    let ghost q = views_of(v@);
    proof {
        lemma_first_index(q, x@);
    }
    let mut p: usize = 0;
    assert(q.subrange(0, q.len() as int) =~= q);
    while p < v.len()
        invariant
            q == views_of(v@),
            p <= q.len(),
            first_index(q, x@) == p + first_index(q.subrange(p as int, q.len() as int), x@),
            0 <= first_index(q, x@) <= q.len(),
            first_index(q, x@) < q.len() <==> q.contains(x@),
        decreases v.len() - p,
    {
        assert(q.subrange(p as int, q.len() as int)[0] == q[p as int]);
        if str_eq(v[p].as_str(), x) {
            return p;
        }
        assert(q.subrange(p as int, q.len() as int).drop_first() =~= q.subrange(p + 1, q.len() as int));
        p = p + 1;
    }
    p
}

/// With no id twice, the result stored for an id is the one at its
/// position.
proof fn lemma_stored(v: Seq<(Seq<char>, OperationResult)>, id: Seq<char>, i: int)
    requires
        0 <= i < v.len(),
        v[i].0 == id,
        forall|a: int, b: int| 0 <= a < v.len() && 0 <= b < v.len() && a != b ==> #[trigger] v[a].0 != #[trigger] v[b].0,
    ensures
        stored_result(v, id) == Some(v[i].1),
{
    assert(exists|k: int| 0 <= k < v.len() && (#[trigger] v[k]).0 == id);
    let w = choose|k: int| 0 <= k < v.len() && (#[trigger] v[k]).0 == id;
    assert(w == i);
}

/// The stored results as (id, result) pairs.
pub open spec fn results_view(v: Seq<(String, OperationResult)>) -> Seq<(Seq<char>, OperationResult)> {
    v.map_values(|e: (String, OperationResult)| (e.0@, e.1))
}

/// The result stored for an id, if any.
pub open spec fn stored_result(v: Seq<(Seq<char>, OperationResult)>, id: Seq<char>) -> Option<OperationResult> {
    if exists|i: int| 0 <= i < v.len() && (#[trigger] v[i]).0 == id {
        Some(v[choose|i: int| 0 <= i < v.len() && (#[trigger] v[i]).0 == id].1)
    } else {
        None
    }
}

impl AsyncManager {
    /// The stored results.
    pub closed spec fn results_spec(&self) -> Seq<(Seq<char>, OperationResult)> {
        results_view(self.operation_results@)
    }

    /// The kinds of the results are those of the stored results.
    proof fn lemma_kinds(&self)
        ensures
            self.kinds().len() == self.results_spec().len(),
            forall|i: int| 0 <= i < self.kinds().len() ==> (#[trigger] self.kinds()[i]).0 == self.results_spec()[i].0
                && self.kinds()[i].1 == kind_of(self.results_spec()[i].1),
    {
    }

    /// The position of the result stored for an id.
    fn find_result(&self, id: &str) -> (r: Option<usize>)
        requires
            self.wf(),
        ensures
            match r {
                Some(i) => i < self.kinds().len() && self.kinds()[i as int].0 == id@ && (choose|w: int|
                    0 <= w < self.kinds().len() && (#[trigger] self.kinds()[w]).0 == id@) == i,
                None => !(exists|w: int| 0 <= w < self.kinds().len() && (#[trigger] self.kinds()[w]).0 == id@),
            },
    {
        let ghost k = self.kinds();
        let mut i: usize = 0;
        while i < self.operation_results.len()
            invariant
                self.wf(),
                k == self.kinds(),
                i <= k.len(),
                forall|j: int| 0 <= j < i ==> (#[trigger] k[j]).0 != id@,
            decreases self.operation_results.len() - i,
        {
            if str_eq(self.operation_results[i].0.as_str(), id) {
                proof {
                    assert(k[i as int].0 == id@);
                    let w = choose|w: int| 0 <= w < k.len() && (#[trigger] k[w]).0 == id@;
                    let keys = k.map_values(|e: (Seq<char>, ResultKind)| e.0);
                    assert(keys[w] == id@ && keys[i as int] == id@);
                }
                return Some(i);
            }
            i = i + 1;
        }
        None
    }

    /// Store a result for an id, in place of its result or last.
    fn put_result(&mut self, id: String, result: OperationResult)
        requires
            old(self).wf(),
        ensures
            final(self).wf(),
            final(self).kinds() == put_kind(old(self).kinds(), id@, kind_of(result)),
            stored_result(final(self).results_spec(), id@) == Some(result),
            final(self).ops() == old(self).ops(),
            final(self).queue() == old(self).queue(),
            final(self).running() == old(self).running(),
            final(self).completed() == old(self).completed(),
            final(self).failed() == old(self).failed(),
            final(self).max_concurrent() == old(self).max_concurrent(),
            final(self).auto_retry() == old(self).auto_retry(),
            final(self).cleanup_hours() == old(self).cleanup_hours(),
            final(self).last_cleanup_spec() == old(self).last_cleanup_spec(),
            final(self).stats_spec() == old(self).stats_spec(),
    {
        let ghost k0 = self.kinds();
        let ghost r0 = self.results_spec();
        let ghost keys0 = k0.map_values(|e: (Seq<char>, ResultKind)| e.0);
        let ghost idv = id@;
        match self.find_result(id.as_str()) {
            Some(i) => {
                self.operation_results.set(i, (id, result));
                assert(self.kinds() =~= k0.update(i as int, (idv, kind_of(result))));
                let ghost keys = self.kinds().map_values(|e: (Seq<char>, ResultKind)| e.0);
                assert(keys =~= keys0);
                assert(self.results_spec()[i as int].0 == idv);
                proof {
                    let w = choose|w: int| 0 <= w < self.results_spec().len() && (#[trigger] self.results_spec()[w]).0 == idv;
                    assert(self.kinds()[w].0 == idv);
                    assert(keys[w] == idv);
                    assert(keys[i as int] == idv);
                    assert(w == i);
                    assert(self.results_spec()[w].1 == result);
                    assert forall|a: int, b: int|
                        0 <= a < self.results_spec().len() && 0 <= b < self.results_spec().len() && a != b implies
                        #[trigger] self.results_spec()[a].0 != #[trigger] self.results_spec()[b].0 by {
                        assert(keys[a] == self.results_spec()[a].0);
                        assert(keys[b] == self.results_spec()[b].0);
                    }
                    lemma_stored(self.results_spec(), idv, i as int);
                }
            },
            None => {
                self.operation_results.push((id, result));
                assert(self.kinds() =~= k0.push((idv, kind_of(result))));
                let ghost keys = self.kinds().map_values(|e: (Seq<char>, ResultKind)| e.0);
                assert(keys =~= keys0.push(idv));
                assert forall|a: int, b: int| 0 <= a < keys.len() && 0 <= b < keys.len() && a != b implies #[trigger] keys[a]
                    != #[trigger] keys[b] by {
                    if a < keys0.len() && b < keys0.len() {
                        assert(keys0[a] != keys0[b]);
                    } else if a < keys0.len() {
                        assert(k0[a].0 == keys0[a]);
                    } else {
                        assert(k0[b].0 == keys0[b]);
                    }
                }
                let ghost n = (self.results_spec().len() - 1) as int;
                assert(self.results_spec()[n].0 == idv);
                proof {
                    let w = choose|w: int| 0 <= w < self.results_spec().len() && (#[trigger] self.results_spec()[w]).0 == idv;
                    assert(self.kinds()[w].0 == idv);
                    assert(keys[w] == idv);
                    assert(keys[n] == idv);
                    assert(w == n);
                    assert(self.results_spec()[w].1 == result);
                    assert forall|a: int, b: int|
                        0 <= a < self.results_spec().len() && 0 <= b < self.results_spec().len() && a != b implies
                        #[trigger] self.results_spec()[a].0 != #[trigger] self.results_spec()[b].0 by {
                        assert(keys[a] == self.results_spec()[a].0);
                        assert(keys[b] == self.results_spec()[b].0);
                    }
                    lemma_stored(self.results_spec(), idv, n);
                }
            },
        }
    }

    /// The status of a task: done, failed, running or waiting by the lists,
    /// else by its stored result; `None` when neither knows it.
    pub fn get_operation_status(&self, operation_id: &str) -> (r: Option<OperationStatus>)
        requires
            self.wf(),
        ensures
            r == self.status_spec(operation_id@),
    {
        if crate::table::holds_string(&self.completed_operations, operation_id) {
            return Some(OperationStatus::Completed);
        }
        if crate::table::holds_string(&self.failed_operations, operation_id) {
            return Some(OperationStatus::Failed);
        }
        if crate::table::holds_string(&self.running_operations, operation_id) {
            return Some(OperationStatus::Running);
        }
        if crate::table::holds_string(&self.operation_queue, operation_id) {
            return Some(OperationStatus::Pending);
        }
        match self.find_result(operation_id) {
            Some(i) => {
                proof {
                    self.lemma_kinds();
                }
                match &self.operation_results[i].1 {
                    OperationResult::Cancelled => Some(OperationStatus::Cancelled),
                    OperationResult::Success(_) => Some(OperationStatus::Completed),
                    OperationResult::Failure(_) => Some(OperationStatus::Failed),
                }
            },
            None => None,
        }
    }

    /// A copy of the result stored for a task.
    pub fn get_operation_result(&self, operation_id: &str) -> (r: Option<OperationResult>)
        requires
            self.wf(),
        ensures
            match stored_result(self.results_spec(), operation_id@) {
                Some(x) => r matches Some(c) && same_result(c, x),
                None => r is None,
            },
    {
        match self.find_result(operation_id) {
            Some(i) => {
                proof {
                    self.lemma_kinds();
                    assert(self.results_spec()[i as int].0 == operation_id@);
                    let w = choose|w: int| 0 <= w < self.results_spec().len() && (#[trigger] self.results_spec()[w]).0
                        == operation_id@;
                    assert(self.kinds()[w].0 == operation_id@);
                    let keys = self.kinds().map_values(|e: (Seq<char>, ResultKind)| e.0);
                    assert(keys[w] == operation_id@);
                    assert(keys[i as int] == operation_id@);
                    assert(w == i);
                }
                Some(copy_result(&self.operation_results[i].1))
            },
            None => {
                proof {
                    self.lemma_kinds();
                    if exists|w: int| 0 <= w < self.results_spec().len() && (#[trigger] self.results_spec()[w]).0 == operation_id@ {
                        let w = choose|w: int| 0 <= w < self.results_spec().len() && (#[trigger] self.results_spec()[w]).0
                            == operation_id@;
                        assert(self.kinds()[w].0 == operation_id@);
                    }
                }
                None
            },
        }
    }

    /// Withdraw a task: refused when unknown, not cancellable, or neither
    /// queued nor running. A queued task leaves the queue; either way its
    /// result becomes `Cancelled` and one change to `Cancelled` is made.
    pub fn cancel_operation(&mut self, operation_id: &str) -> (r: (Result<(), String>, Vec<StatusChange>))
        requires
            old(self).wf(),
        ensures
            final(self).wf(),
            final(self).ops() == old(self).ops(),
            final(self).running() == old(self).running(),
            final(self).completed() == old(self).completed(),
            final(self).failed() == old(self).failed(),
            final(self).stats_spec() == old(self).stats_spec(),
            !has_op(old(self).ops(), operation_id@) ==> (r.0 matches Err(m) && m@ == "Operation not found"@)
                && r.1@.len() == 0 && final(self).queue() == old(self).queue() && final(self).kinds()
                == old(self).kinds(),
            has_op(old(self).ops(), operation_id@) && !old(self).ops()[op_index(old(self).ops(), operation_id@)].cancellable
                ==> (r.0 matches Err(m) && m@ == "Operation is not cancellable"@) && r.1@.len() == 0
                && final(self).queue() == old(self).queue() && final(self).kinds() == old(self).kinds(),
            has_op(old(self).ops(), operation_id@) && old(self).ops()[op_index(old(self).ops(), operation_id@)].cancellable
                ==> if old(self).queue().contains(operation_id@) {
                &&& r.0 is Ok
                &&& final(self).queue() == old(self).queue().remove(first_index(old(self).queue(), operation_id@))
                &&& final(self).kinds() == put_kind(old(self).kinds(), operation_id@, ResultKind::Cancelled)
                &&& changes_view(r.1@) == seq![(operation_id@, OperationStatus::Cancelled)]
            } else if old(self).running().contains(operation_id@) {
                &&& r.0 is Ok
                &&& final(self).queue() == old(self).queue()
                &&& final(self).kinds() == put_kind(old(self).kinds(), operation_id@, ResultKind::Cancelled)
                &&& changes_view(r.1@) == seq![(operation_id@, OperationStatus::Cancelled)]
            } else {
                &&& (r.0 matches Err(m) && m@ == "Operation not found in queue or running operations"@)
                &&& r.1@.len() == 0
                &&& final(self).queue() == old(self).queue()
                &&& final(self).kinds() == old(self).kinds()
            },
    {
        let i = match self.find_op(operation_id) {
            Some(i) => i,
            None => {
                return (Err(owned("Operation not found")), Vec::new());
            },
        };
        if !self.operations[i].cancellable {
            return (Err(owned("Operation is not cancellable")), Vec::new());
        }
        let ghost q = self.queue();
        let p = first_position(&self.operation_queue, operation_id);
        let mut changes: Vec<StatusChange> = Vec::new();
        if p < self.operation_queue.len() {
            self.operation_queue.remove(p);
            assert(self.queue() =~= q.remove(p as int));
            self.put_result(owned(operation_id), OperationResult::Cancelled);
            changes.push(StatusChange { operation_id: owned(operation_id), status: OperationStatus::Cancelled });
            assert(changes_view(changes@) =~= seq![(operation_id@, OperationStatus::Cancelled)]);
            return (Ok(()), changes);
        }
        assert(!q.contains(operation_id@));
        if crate::table::holds_string(&self.running_operations, operation_id) {
            self.put_result(owned(operation_id), OperationResult::Cancelled);
            changes.push(StatusChange { operation_id: owned(operation_id), status: OperationStatus::Cancelled });
            assert(changes_view(changes@) =~= seq![(operation_id@, OperationStatus::Cancelled)]);
            return (Ok(()), changes);
        }
        (Err(owned("Operation not found in queue or running operations")), changes)
    }
}


/// `s` without the first `x`, if there is one.
pub open spec fn drop_id(s: Seq<Seq<char>>, x: Seq<char>) -> Seq<Seq<char>> {
    if s.contains(x) {
        s.remove(first_index(s, x))
    } else {
        s
    }
}

impl AsyncManager {
    /// Take a task off the running set.
    fn stop_running(&mut self, id: &str)
        requires
            old(self).wf(),
        ensures
            final(self).wf(),
            final(self).running() == drop_id(old(self).running(), id@),
            final(self).ops() == old(self).ops(),
            final(self).kinds() == old(self).kinds(),
            final(self).results_spec() == old(self).results_spec(),
            final(self).queue() == old(self).queue(),
            final(self).completed() == old(self).completed(),
            final(self).failed() == old(self).failed(),
            final(self).max_concurrent() == old(self).max_concurrent(),
            final(self).auto_retry() == old(self).auto_retry(),
            final(self).cleanup_hours() == old(self).cleanup_hours(),
            final(self).last_cleanup_spec() == old(self).last_cleanup_spec(),
            final(self).stats_spec() == old(self).stats_spec(),
    {
        let ghost r0 = self.running();
        let p = first_position(&self.running_operations, id);
        if p < self.running_operations.len() {
            self.running_operations.remove(p);
            assert(self.running() =~= r0.remove(p as int));
            assert forall|a: int, b: int|
                0 <= a < self.running().len() && 0 <= b < self.running().len() && a != b implies #[trigger] self.running()[a]
                != #[trigger] self.running()[b] by {
                let oa = if a < p { a } else { a + 1 };
                let ob = if b < p { b } else { b + 1 };
                assert(r0[oa] != r0[ob]);
            }
        }
    }

    /// Count a finished run of the task with `id` at `now`.
    fn count_run(&mut self, id: &str, now: i64)
        requires
            old(self).wf(),
        ensures
            final(self).wf(),
            final(self).stats_spec() == stats_after_run(old(self).stats_spec(), run_of(old(self).ops(), id@, now)),
            final(self).ops() == old(self).ops(),
            final(self).kinds() == old(self).kinds(),
            final(self).results_spec() == old(self).results_spec(),
            final(self).queue() == old(self).queue(),
            final(self).running() == old(self).running(),
            final(self).completed() == old(self).completed(),
            final(self).failed() == old(self).failed(),
            final(self).max_concurrent() == old(self).max_concurrent(),
            final(self).auto_retry() == old(self).auto_retry(),
            final(self).cleanup_hours() == old(self).cleanup_hours(),
            final(self).last_cleanup_spec() == old(self).last_cleanup_spec(),
    {
        let i = match self.find_op(id) {
            Some(i) => i,
            None => {
                return;
            },
        };
        let d = match self.operations[i].duration_seconds_at(now) {
            Some(d) => d,
            None => {
                return;
            },
        };
        let n = self.stats.completed_operations;
        if n == u64::MAX {
            return;
        }
        let total = match self.stats.average_execution_time_ms.checked_mul(n as i128) {
            Some(t) => t,
            None => {
                return;
            },
        };
        let total = match total.checked_add(d * 1000) {
            Some(t) => t,
            None => {
                return;
            },
        };
        if total == i128::MIN {
            return;
        }
        let n2 = n + 1;
        let avg: i128 = if total >= 0 {
            total / (n2 as i128)
        } else {
            -((-total) / (n2 as i128))
        };
        assert(total >= 0 ==> avg == (total as int) / (n2 as int));
        self.stats.completed_operations = n2;
        self.stats.average_execution_time_ms = avg;
    }

    /// Queue each task that waits for `done`, all of whose waits are over,
    /// and that is not queued.
    fn requeue_dependents(&mut self, done: &str)
        requires
            old(self).wf(),
        ensures
            final(self).wf(),
            final(self).queue() == requeue(old(self).ops(), old(self).ops().len() as int, old(self).queue(), old(self).completed(), done@),
            final(self).ops() == old(self).ops(),
            final(self).kinds() == old(self).kinds(),
            final(self).results_spec() == old(self).results_spec(),
            final(self).running() == old(self).running(),
            final(self).completed() == old(self).completed(),
            final(self).failed() == old(self).failed(),
            final(self).max_concurrent() == old(self).max_concurrent(),
            final(self).auto_retry() == old(self).auto_retry(),
            final(self).cleanup_hours() == old(self).cleanup_hours(),
            final(self).last_cleanup_spec() == old(self).last_cleanup_spec(),
            final(self).stats_spec() == old(self).stats_spec(),
    {
        let mut k: usize = 0;
        while k < self.operations.len()
            invariant
                self.wf(),
                k <= self.ops().len(),
                self.queue() == requeue(old(self).ops(), k as int, old(self).queue(), old(self).completed(), done@),
                self.ops() == old(self).ops(),
                self.kinds() == old(self).kinds(),
                self.results_spec() == old(self).results_spec(),
                self.running() == old(self).running(),
                self.completed() == old(self).completed(),
                self.failed() == old(self).failed(),
                self.max_concurrent() == old(self).max_concurrent(),
                self.auto_retry() == old(self).auto_retry(),
                self.cleanup_hours() == old(self).cleanup_hours(),
                self.last_cleanup_spec() == old(self).last_cleanup_spec(),
                self.stats_spec() == old(self).stats_spec(),
            decreases self.operations.len() - k,
        {
            let waits = crate::table::holds_string(&self.operations[k].dependencies, done);
            if waits {
                let oid = self.operations[k].id.clone();
                if self.are_dependencies_satisfied(oid.as_str()) && !crate::table::holds_string(
                    &self.operation_queue,
                    oid.as_str(),
                ) {
                    self.operation_queue.push(oid);
                }
            }
            k = k + 1;
        }
    }

    /// A task ended with `result` at `now`. It leaves the running set and
    /// its result is stored. A success is listed done; a failure is listed
    /// failed and, with retries on and left, counted and queued again
    /// (`Pending`), the queue then worked through, and nothing more. Else
    /// the end is shown (`Completed`, `Failed` or `Cancelled`), the run
    /// counted, the queue worked through, the tasks waiting for it queued,
    /// and the queue worked through again.
    pub fn complete_operation_at(&mut self, operation_id: &str, result: OperationResult, now: i64) -> (changes: Vec<StatusChange>)
        requires
            old(self).wf(),
        ensures
            final(self).wf(),
            stored_result(final(self).results_spec(), operation_id@) == Some(result),
            final(self).kinds() == put_kind(old(self).kinds(), operation_id@, kind_of(result)),
            final(self).completed() == (if kind_of(result) == ResultKind::Success {
                old(self).completed().push(operation_id@)
            } else {
                old(self).completed()
            }),
            final(self).failed() == (if kind_of(result) == ResultKind::Failure {
                old(self).failed().push(operation_id@)
            } else {
                old(self).failed()
            }),
            ({
                let run1 = drop_id(old(self).running(), operation_id@);
                let done = final(self).completed();
                let max = old(self).max_concurrent() as int;
                if retries(old(self).ops(), operation_id@, kind_of(result), old(self).auto_retry()) {
                    let ops1 = retried(old(self).ops(), operation_id@);
                    let p = pq(ops1, old(self).queue().push(operation_id@), run1, done, max);
                    &&& final(self).ops() == ops1
                    &&& final(self).queue() == p.0
                    &&& final(self).running() == p.1
                    &&& changes_view(changes@) == seq![(operation_id@, OperationStatus::Pending)] + started_changes(p.2)
                    &&& final(self).stats_spec() == old(self).stats_spec()
                } else {
                    let ops = old(self).ops();
                    let p1 = pq(ops, old(self).queue(), run1, done, max);
                    let q2 = requeue(ops, ops.len() as int, p1.0, done, operation_id@);
                    let p2 = pq(ops, q2, p1.1, done, max);
                    &&& final(self).ops() == ops
                    &&& final(self).queue() == p2.0
                    &&& final(self).running() == p2.1
                    &&& changes_view(changes@) == seq![(operation_id@, end_status(kind_of(result)))] + started_changes(p1.2)
                        + started_changes(p2.2)
                    &&& final(self).stats_spec() == stats_after_run(old(self).stats_spec(), run_of(ops, operation_id@, now))
                }
            }),
            final(self).max_concurrent() == old(self).max_concurrent(),
            final(self).auto_retry() == old(self).auto_retry(),
            final(self).cleanup_hours() == old(self).cleanup_hours(),
    {
        let ghost kind = kind_of(result);
        let ghost res = result;
        self.stop_running(operation_id);
        let k: u8 = match &result {
            OperationResult::Success(_) => 0,
            OperationResult::Failure(_) => 1,
            OperationResult::Cancelled => 2,
        };
        self.put_result(owned(operation_id), result);
        let mut changes: Vec<StatusChange> = Vec::new();
        if k == 0 {
            self.completed_operations.push(owned(operation_id));
            assert(self.completed() =~= old(self).completed().push(operation_id@));
            changes.push(StatusChange { operation_id: owned(operation_id), status: OperationStatus::Completed });
        } else if k == 1 {
            self.failed_operations.push(owned(operation_id));
            assert(self.failed() =~= old(self).failed().push(operation_id@));
            if self.auto_retry_enabled {
                match self.find_op(operation_id) {
                    Some(i) => {
                        if self.operations[i].can_retry() {
                            let ghost ops0 = self.ops();
                            let mut op = self.operations.remove(i);
                            op.increment_retry();
                            self.operations.insert(i, op);
                            assert(self.ops() =~= retried(ops0, operation_id@));
                            assert forall|a: int, b: int|
                                0 <= a < op_ids(self.operations@).len() && 0 <= b < op_ids(self.operations@).len() && a != b implies
                                #[trigger] op_ids(self.operations@)[a] != #[trigger] op_ids(self.operations@)[b] by {
                                assert(op_ids(ops0)[a] == ops0[a].id@);
                                assert(op_ids(ops0)[b] == ops0[b].id@);
                                assert(op_ids(ops0)[a] != op_ids(ops0)[b]);
                            }
                            self.operation_queue.push(owned(operation_id));
                            assert(self.queue() =~= old(self).queue().push(operation_id@));
                            changes.push(StatusChange { operation_id: owned(operation_id), status: OperationStatus::Pending });
                            let mut started = self.process_queue();
                            let ghost c0 = changes@;
                            let ghost s0 = started@;
                            changes.append(&mut started);
                            assert(changes@ =~= c0 + s0);
                            assert(changes_view(changes@) =~= changes_view(c0) + changes_view(s0));
                            assert(changes_view(c0) =~= seq![(operation_id@, OperationStatus::Pending)]);
                            return changes;
                        }
                    },
                    None => {},
                }
            }
            changes.push(StatusChange { operation_id: owned(operation_id), status: OperationStatus::Failed });
        } else {
            changes.push(StatusChange { operation_id: owned(operation_id), status: OperationStatus::Cancelled });
        }
        let ghost c0 = changes@;
        assert(changes_view(c0) =~= seq![(operation_id@, end_status(kind))]);
        self.count_run(operation_id, now);
        let mut s1 = self.process_queue();
        let ghost s1v = s1@;
        changes.append(&mut s1);
        self.requeue_dependents(operation_id);
        let mut s2 = self.process_queue();
        let ghost s2v = s2@;
        changes.append(&mut s2);
        assert(changes@ =~= c0 + s1v + s2v);
        assert(changes_view(changes@) =~= changes_view(c0) + changes_view(s1v) + changes_view(s2v));
        changes
    }
}


/// The tasks of a kind, in order.
pub open spec fn ops_of_type(ops: Seq<AsyncOperation>, t: OperationType) -> Seq<AsyncOperation>
    decreases ops.len(),
{
    if ops.len() == 0 {
        Seq::empty()
    } else if ops.last().operation_type == t {
        ops_of_type(ops.drop_last(), t).push(ops.last())
    } else {
        ops_of_type(ops.drop_last(), t)
    }
}

/// The known tasks among running ids, in running order.
pub open spec fn running_ops(ops: Seq<AsyncOperation>, running: Seq<Seq<char>>) -> Seq<AsyncOperation>
    decreases running.len(),
{
    if running.len() == 0 {
        Seq::empty()
    } else if has_op(ops, running.last()) {
        running_ops(ops, running.drop_last()).push(ops[op_index(ops, running.last())])
    } else {
        running_ops(ops, running.drop_last())
    }
}

/// The tasks kept by a clean-up at `cutoff`: those not done, or done after
/// it.
pub open spec fn kept_ops(ops: Seq<AsyncOperation>, cutoff: int) -> Seq<AsyncOperation>
    decreases ops.len(),
{
    if ops.len() == 0 {
        Seq::empty()
    } else if ops.last().completed_at matches Some(c) && c <= cutoff {
        kept_ops(ops.drop_last(), cutoff)
    } else {
        kept_ops(ops.drop_last(), cutoff).push(ops.last())
    }
}

/// The ids of a list that name a kept task.
pub open spec fn kept_ids(ids: Seq<Seq<char>>, ops: Seq<AsyncOperation>) -> Seq<Seq<char>>
    decreases ids.len(),
{
    if ids.len() == 0 {
        Seq::empty()
    } else if has_op(ops, ids.last()) {
        kept_ids(ids.drop_last(), ops).push(ids.last())
    } else {
        kept_ids(ids.drop_last(), ops)
    }
}

/// The results whose id names a kept task.
pub open spec fn kept_kinds(r: Seq<(Seq<char>, ResultKind)>, ops: Seq<AsyncOperation>) -> Seq<(Seq<char>, ResultKind)>
    decreases r.len(),
{
    if r.len() == 0 {
        Seq::empty()
    } else if has_op(ops, r.last().0) {
        kept_kinds(r.drop_last(), ops).push(r.last())
    } else {
        kept_kinds(r.drop_last(), ops)
    }
}

impl AsyncManager {
    /// The counters, with the current queue length, the peak at least as
    /// long, and the share of successes (in hundredths of a percent) when
    /// any task was taken on.
    pub fn get_statistics(&self) -> (r: OperationStats)
        ensures
            r.total_operations == self.stats_spec().total_operations,
            r.completed_operations == self.stats_spec().completed_operations,
            r.failed_operations == self.stats_spec().failed_operations,
            r.cancelled_operations == self.stats_spec().cancelled_operations,
            r.average_execution_time_ms == self.stats_spec().average_execution_time_ms,
            r.operations_per_hour == self.stats_spec().operations_per_hour,
            r.current_queue_size == self.queue().len(),
            r.peak_queue_size == (if self.stats_spec().peak_queue_size >= self.queue().len() {
                self.stats_spec().peak_queue_size as int
            } else {
                self.queue().len() as int
            }),
            r.success_rate == (if self.stats_spec().total_operations > 0 {
                self.stats_spec().completed_operations * 10000 / self.stats_spec().total_operations as int
            } else {
                self.stats_spec().success_rate as int
            }),
            r.operation_type_counts@ == self.stats_spec().operation_type_counts@,
    {
        let st = &self.stats;
        let mut counts: Vec<(OperationType, u64)> = Vec::new();
        let mut i: usize = 0;
        while i < st.operation_type_counts.len()
            invariant
                i <= st.operation_type_counts@.len(),
                counts@ == st.operation_type_counts@.subrange(0, i as int),
            decreases st.operation_type_counts.len() - i,
        {
            counts.push(st.operation_type_counts[i]);
            assert(counts@ =~= st.operation_type_counts@.subrange(0, i + 1));
            i = i + 1;
        }
        assert(counts@ =~= st.operation_type_counts@);
        let current = self.operation_queue.len();
        let rate: u128 = if st.total_operations > 0 {
            (st.completed_operations as u128) * 10000 / (st.total_operations as u128)
        } else {
            st.success_rate
        };
        OperationStats {
            total_operations: st.total_operations,
            completed_operations: st.completed_operations,
            failed_operations: st.failed_operations,
            cancelled_operations: st.cancelled_operations,
            average_execution_time_ms: st.average_execution_time_ms,
            operations_per_hour: st.operations_per_hour,
            success_rate: rate,
            current_queue_size: current,
            peak_queue_size: if st.peak_queue_size >= current {
                st.peak_queue_size
            } else {
                current
            },
            operation_type_counts: counts,
        }
    }
}


impl AsyncManager {
    /// A copy of every task with its status (`Pending` when none is known),
    /// in the order first submitted.
    pub fn get_all_operations(&self) -> (r: Vec<(AsyncOperation, OperationStatus)>)
        requires
            self.wf(),
        ensures
            r@.len() == self.ops().len(),
            forall|i: int|
                0 <= i < r@.len() ==> same_operation((#[trigger] r@[i]).0, self.ops()[i]) && r@[i].1 == (match self.status_spec(
                    self.ops()[i].id@,
                ) {
                    Some(st) => st,
                    None => OperationStatus::Pending,
                }),
    {
        let mut out: Vec<(AsyncOperation, OperationStatus)> = Vec::new();
        let mut i: usize = 0;
        while i < self.operations.len()
            invariant
                self.wf(),
                i <= self.ops().len(),
                out@.len() == i,
                forall|k: int|
                    0 <= k < i ==> same_operation((#[trigger] out@[k]).0, self.ops()[k]) && out@[k].1 == (match self.status_spec(
                        self.ops()[k].id@,
                    ) {
                        Some(st) => st,
                        None => OperationStatus::Pending,
                    }),
            decreases self.operations.len() - i,
        {
            let st = match self.get_operation_status(self.operations[i].id.as_str()) {
                Some(st) => st,
                None => OperationStatus::Pending,
            };
            out.push((self.operations[i].copy(), st));
            i = i + 1;
        }
        out
    }

    /// A copy of every task of a kind with its status, in order.
    pub fn get_operations_by_type(&self, operation_type: &OperationType) -> (r: Vec<(AsyncOperation, OperationStatus)>)
        requires
            self.wf(),
        ensures
            r@.len() == ops_of_type(self.ops(), *operation_type).len(),
            forall|i: int|
                0 <= i < r@.len() ==> same_operation((#[trigger] r@[i]).0, ops_of_type(self.ops(), *operation_type)[i])
                    && r@[i].1 == (match self.status_spec(ops_of_type(self.ops(), *operation_type)[i].id@) {
                    Some(st) => st,
                    None => OperationStatus::Pending,
                }),
    {
        let t = *operation_type;
        let mut out: Vec<(AsyncOperation, OperationStatus)> = Vec::new();
        let mut i: usize = 0;
        while i < self.operations.len()
            invariant
                self.wf(),
                i <= self.ops().len(),
                out@.len() == ops_of_type(self.ops().subrange(0, i as int), t).len(),
                forall|k: int|
                    0 <= k < out@.len() ==> same_operation(
                        (#[trigger] out@[k]).0,
                        ops_of_type(self.ops().subrange(0, i as int), t)[k],
                    ) && out@[k].1 == (match self.status_spec(ops_of_type(self.ops().subrange(0, i as int), t)[k].id@) {
                        Some(st) => st,
                        None => OperationStatus::Pending,
                    }),
            decreases self.operations.len() - i,
        {
            let ghost pre = self.ops().subrange(0, i as int);
            assert(self.ops().subrange(0, i + 1).drop_last() =~= pre);
            assert(self.ops().subrange(0, i + 1).last() == self.ops()[i as int]);
            if self.operations[i].operation_type == t {
                let st = match self.get_operation_status(self.operations[i].id.as_str()) {
                    Some(st) => st,
                    None => OperationStatus::Pending,
                };
                out.push((self.operations[i].copy(), st));
            }
            i = i + 1;
        }
        assert(self.ops().subrange(0, self.ops().len() as int) =~= self.ops());
        out
    }

    /// Copies of the running tasks that are known, in running order.
    pub fn get_running_operations(&self) -> (r: Vec<AsyncOperation>)
        requires
            self.wf(),
        ensures
            r@.len() == running_ops(self.ops(), self.running()).len(),
            forall|i: int| 0 <= i < r@.len() ==> same_operation(#[trigger] r@[i], running_ops(self.ops(), self.running())[i]),
    {
        let ghost run = self.running();
        let mut out: Vec<AsyncOperation> = Vec::new();
        let mut i: usize = 0;
        while i < self.running_operations.len()
            invariant
                self.wf(),
                run == self.running(),
                i <= run.len(),
                out@.len() == running_ops(self.ops(), run.subrange(0, i as int)).len(),
                forall|k: int| 0 <= k < out@.len() ==> same_operation(#[trigger] out@[k], running_ops(self.ops(), run.subrange(0, i as int))[k]),
            decreases self.running_operations.len() - i,
        {
            assert(run.subrange(0, i + 1).drop_last() =~= run.subrange(0, i as int));
            assert(run.subrange(0, i + 1).last() == self.running_operations@[i as int]@);
            match self.find_op(self.running_operations[i].as_str()) {
                Some(j) => {
                    out.push(self.operations[j].copy());
                },
                None => {},
            }
            i = i + 1;
        }
        assert(run.subrange(0, run.len() as int) =~= run);
        out
    }

    /// Nothing happens.
    pub fn pause(&self)
    {
    }

    /// Work through the queue; the tasks started.
    pub fn resume(&mut self) -> (started: Vec<StatusChange>)
        requires
            old(self).wf(),
        ensures
            final(self).wf(),
            ({
                let r = pq(
                    old(self).ops(),
                    old(self).queue(),
                    old(self).running(),
                    old(self).completed(),
                    old(self).max_concurrent() as int,
                );
                &&& final(self).queue() == r.0
                &&& final(self).running() == r.1
                &&& changes_view(started@) == started_changes(r.2)
            }),
            final(self).ops() == old(self).ops(),
            final(self).kinds() == old(self).kinds(),
            final(self).completed() == old(self).completed(),
            final(self).failed() == old(self).failed(),
    {
        self.process_queue()
    }

    /// Take on several tasks in order; their handles and all status
    /// changes, in order.
    pub fn submit_batch(&mut self, operations: Vec<AsyncOperation>) -> (r: (Vec<OperationHandle>, Vec<StatusChange>))
        requires
            old(self).wf(),
        ensures
            final(self).wf(),
            r.0@.len() == operations@.len(),
            forall|i: int| 0 <= i < operations@.len() ==> (#[trigger] r.0@[i]).id@ == operations@[i].id@,
    {
        let mut ops = operations;
        let ghost ids = ops@.map_values(|o: AsyncOperation| o.id@);
        let n = ops.len();
        let mut handles: Vec<OperationHandle> = Vec::new();
        let mut changes: Vec<StatusChange> = Vec::new();
        let mut k: usize = 0;
        let mut rest: Vec<AsyncOperation> = Vec::new();
        while ops.len() > 0
            invariant
                self.wf(),
                handles@.len() + ops@.len() == n,
                n == ids.len(),
                forall|i: int| 0 <= i < handles@.len() ==> (#[trigger] handles@[i]).id@ == ids[i],
                forall|i: int| 0 <= i < ops@.len() ==> (#[trigger] ops@[i]).id@ == ids[handles@.len() + i],
            decreases ops.len(),
        {
            let op = ops.remove(0);
            let (h, mut c) = self.submit_operation(op);
            handles.push(h);
            changes.append(&mut c);
        }
        (handles, changes)
    }

    /// Drop the tasks done on or before `interval` hours before `now`, with
    /// their results and list entries, unless the last clean-up was less
    /// than `interval` hours before `now`.
    pub fn cleanup_old_operations_at(&mut self, now: i64)
        requires
            old(self).wf(),
        ensures
            final(self).wf(),
            cleaned_up(*old(self), *final(self), now),
            final(self).queue() == old(self).queue(),
            final(self).running() == old(self).running(),
    {
        let window: i128 = (self.cleanup_interval_hours as i128) * 3600;
        if (now as i128) - (self.last_cleanup as i128) < window {
            return;
        }
        let cutoff: i128 = (now as i128) - window;
        let ghost ops0 = self.ops();
        let mut rest: Vec<AsyncOperation> = Vec::new();
        std::mem::swap(&mut rest, &mut self.operations);
        let mut kept: Vec<AsyncOperation> = Vec::new();
        while rest.len() > 0
            invariant
                rest@.len() <= ops0.len(),
                rest@ == ops0.subrange(ops0.len() - rest@.len(), ops0.len() as int),
                kept@ == kept_ops(ops0.subrange(0, ops0.len() - rest@.len()), cutoff as int),
            decreases rest.len(),
        {
            let ghost i = ops0.len() - rest@.len();
            assert(ops0.subrange(0, i + 1).drop_last() =~= ops0.subrange(0, i));
            assert(rest@[0] == ops0[i]);
            let op = rest.remove(0);
            assert(rest@ =~= ops0.subrange(i + 1, ops0.len() as int));
            let drop = match op.completed_at {
                Some(c) => (c as i128) <= cutoff,
                None => false,
            };
            if !drop {
                kept.push(op);
            }
        }
        assert(ops0.subrange(0, ops0.len() as int) =~= ops0);
        proof {
            lemma_kept_ops(ops0, cutoff as int);
        }
        self.operations = kept;
        let ghost kept_v = self.ops();
        let mut results: Vec<(String, OperationResult)> = Vec::new();
        std::mem::swap(&mut results, &mut self.operation_results);
        let ghost res0 = result_kinds(results@);
        let mut new_results: Vec<(String, OperationResult)> = Vec::new();
        while results.len() > 0
            invariant
                self.ops() == kept_v,
                distinct(op_ids(kept_v)),
                results@.len() <= res0.len(),
                result_kinds(results@) == res0.subrange(res0.len() - results@.len(), res0.len() as int),
                result_kinds(new_results@) == kept_kinds(res0.subrange(0, res0.len() - results@.len()), kept_v),
            decreases results.len(),
        {
            let ghost i = res0.len() - results@.len();
            assert(res0.subrange(0, i + 1).drop_last() =~= res0.subrange(0, i));
            assert(result_kinds(results@)[0] == res0[i]);
            let ghost old_r = results@;
            let e = results.remove(0);
            assert(results@ =~= old_r.drop_first());
            assert(result_kinds(results@) =~= result_kinds(old_r).drop_first());
            assert(result_kinds(results@) =~= res0.subrange(i + 1, res0.len() as int));
            if self.has_id(e.0.as_str()) {
                let ghost n0 = result_kinds(new_results@);
                new_results.push(e);
                assert(result_kinds(new_results@) =~= n0.push(res0[i]));
            }
        }
        assert(res0.subrange(0, res0.len() as int) =~= res0);
        proof {
            lemma_kept_kinds(res0, kept_v);
        }
        self.operation_results = new_results;
        let c = self.keep_known(&self.completed_operations);
        self.completed_operations = c;
        let f = self.keep_known(&self.failed_operations);
        self.failed_operations = f;
        self.last_cleanup = now;
    }

    /// Whether a task with this id is known.
    fn has_id(&self, id: &str) -> (b: bool)
        ensures
            b == has_op(self.ops(), id@),
    {
        let mut i: usize = 0;
        while i < self.operations.len()
            invariant
                i <= self.operations@.len(),
                forall|k: int| 0 <= k < i ==> (#[trigger] self.operations@[k]).id@ != id@,
            decreases self.operations.len() - i,
        {
            if str_eq(self.operations[i].id.as_str(), id) {
                assert(self.ops()[i as int].id@ == id@);
                return true;
            }
            i = i + 1;
        }
        false
    }

    /// The ids of a list that name a known task, in order.
    fn keep_known(&self, ids: &Vec<String>) -> (r: Vec<String>)
        ensures
            views_of(r@) == kept_ids(views_of(ids@), self.ops()),
    {
        let ghost v = views_of(ids@);
        let mut out: Vec<String> = Vec::new();
        let mut i: usize = 0;
        while i < ids.len()
            invariant
                v == views_of(ids@),
                i <= v.len(),
                views_of(out@) == kept_ids(v.subrange(0, i as int), self.ops()),
            decreases ids.len() - i,
        {
            assert(v.subrange(0, i + 1).drop_last() =~= v.subrange(0, i as int));
            assert(v.subrange(0, i + 1).last() == ids@[i as int]@);
            if self.has_id(ids[i].as_str()) {
                let ghost o0 = out@;
                out.push(ids[i].clone());
                assert(views_of(out@) =~= views_of(o0).push(ids@[i as int]@));
            }
            i = i + 1;
        }
        assert(v.subrange(0, v.len() as int) =~= v);
        out
    }
}

/// Kept tasks come from the list, in order, with no id twice when the list
/// has none twice.
proof fn lemma_kept_ops(s: Seq<AsyncOperation>, cutoff: int)
    ensures
        forall|k: int| 0 <= k < kept_ops(s, cutoff).len() ==> exists|j: int| 0 <= j < s.len() && #[trigger] kept_ops(s, cutoff)[k] == s[j],
        distinct(op_ids(s)) ==> distinct(op_ids(kept_ops(s, cutoff))),
    decreases s.len(),
{
    if s.len() > 0 {
        let t = s.drop_last();
        lemma_kept_ops(t, cutoff);
        let kt = kept_ops(t, cutoff);
        let ks = kept_ops(s, cutoff);
        assert forall|k: int| 0 <= k < ks.len() implies exists|j: int| 0 <= j < s.len() && #[trigger] ks[k] == s[j] by {
            if k < kt.len() {
                let j = choose|j: int| 0 <= j < t.len() && kt[k] == t[j];
                assert(ks[k] == s[j]);
            } else {
                assert(ks[k] == s[s.len() - 1]);
            }
        }
        if distinct(op_ids(s)) {
            assert(distinct(op_ids(t))) by {
                assert forall|a: int, b: int| 0 <= a < op_ids(t).len() && 0 <= b < op_ids(t).len() && a != b implies
                    #[trigger] op_ids(t)[a] != #[trigger] op_ids(t)[b] by {
                    assert(op_ids(s)[a] != op_ids(s)[b]);
                }
            }
            assert forall|a: int, b: int| 0 <= a < op_ids(ks).len() && 0 <= b < op_ids(ks).len() && a != b implies
                #[trigger] op_ids(ks)[a] != #[trigger] op_ids(ks)[b] by {
                if a < kt.len() && b < kt.len() {
                    assert(op_ids(kt)[a] != op_ids(kt)[b]);
                } else if a < kt.len() {
                    let j = choose|j: int| 0 <= j < t.len() && kt[a] == t[j];
                    assert(op_ids(s)[j] != op_ids(s)[s.len() - 1]);
                } else {
                    let j = choose|j: int| 0 <= j < t.len() && kt[b] == t[j];
                    assert(op_ids(s)[j] != op_ids(s)[s.len() - 1]);
                }
            }
        }
    }
}

/// Kept results come from the list, with no id twice when the list has
/// none twice.
proof fn lemma_kept_kinds(r: Seq<(Seq<char>, ResultKind)>, ops: Seq<AsyncOperation>)
    ensures
        forall|k: int| 0 <= k < kept_kinds(r, ops).len() ==> exists|j: int| 0 <= j < r.len() && #[trigger] kept_kinds(r, ops)[k] == r[j],
        distinct(r.map_values(|e: (Seq<char>, ResultKind)| e.0)) ==> distinct(
            kept_kinds(r, ops).map_values(|e: (Seq<char>, ResultKind)| e.0),
        ),
    decreases r.len(),
{
    if r.len() > 0 {
        let t = r.drop_last();
        lemma_kept_kinds(t, ops);
        let kt = kept_kinds(t, ops);
        let ks = kept_kinds(r, ops);
        assert forall|k: int| 0 <= k < ks.len() implies exists|j: int| 0 <= j < r.len() && #[trigger] ks[k] == r[j] by {
            if k < kt.len() {
                let j = choose|j: int| 0 <= j < t.len() && kt[k] == t[j];
                assert(ks[k] == r[j]);
            } else {
                assert(ks[k] == r[r.len() - 1]);
            }
        }
        let keys = r.map_values(|e: (Seq<char>, ResultKind)| e.0);
        if distinct(keys) {
            let tk = t.map_values(|e: (Seq<char>, ResultKind)| e.0);
            assert(distinct(tk)) by {
                assert forall|a: int, b: int| 0 <= a < tk.len() && 0 <= b < tk.len() && a != b implies #[trigger] tk[a]
                    != #[trigger] tk[b] by {
                    assert(keys[a] != keys[b]);
                }
            }
            let kk = ks.map_values(|e: (Seq<char>, ResultKind)| e.0);
            let ktk = kt.map_values(|e: (Seq<char>, ResultKind)| e.0);
            assert forall|a: int, b: int| 0 <= a < kk.len() && 0 <= b < kk.len() && a != b implies #[trigger] kk[a]
                != #[trigger] kk[b] by {
                if a < kt.len() && b < kt.len() {
                    assert(ktk[a] != ktk[b]);
                } else if a < kt.len() {
                    let j = choose|j: int| 0 <= j < t.len() && kt[a] == t[j];
                    assert(keys[j] != keys[r.len() - 1]);
                } else {
                    let j = choose|j: int| 0 <= j < t.len() && kt[b] == t[j];
                    assert(keys[j] != keys[r.len() - 1]);
                }
            }
        }
    }
}

impl Default for AsyncManager {
    fn default() -> (r: Self)
        ensures
            r.wf(),
            r.ops().len() == 0,
            r.max_concurrent() == 5,
    {
        Self::new()
    }
}

impl OperationHandle {
    /// The task's status.
    pub fn status(&self, manager: &AsyncManager) -> (r: Option<OperationStatus>)
        requires
            manager.wf(),
        ensures
            r == manager.status_spec(self.id@),
    {
        manager.get_operation_status(self.id.as_str())
    }

    /// A copy of the task's result.
    pub fn result(&self, manager: &AsyncManager) -> (r: Option<OperationResult>)
        requires
            manager.wf(),
        ensures
            match stored_result(manager.results_spec(), self.id@) {
                Some(x) => r matches Some(c) && same_result(c, x),
                None => r is None,
            },
    {
        manager.get_operation_result(self.id.as_str())
    }

    /// Withdraw the task.
    pub fn cancel(&self, manager: &mut AsyncManager) -> (r: (Result<(), String>, Vec<StatusChange>))
        requires
            old(manager).wf(),
        ensures
            final(manager).wf(),
    {
        manager.cancel_operation(self.id.as_str())
    }

    /// Whether the task is done.
    pub fn is_completed(&self, manager: &AsyncManager) -> (b: bool)
        requires
            manager.wf(),
        ensures
            b == (manager.status_spec(self.id@) == Some(OperationStatus::Completed)),
    {
        self.status(manager) == Some(OperationStatus::Completed)
    }

    /// Whether the task is running.
    pub fn is_running(&self, manager: &AsyncManager) -> (b: bool)
        requires
            manager.wf(),
        ensures
            b == (manager.status_spec(self.id@) == Some(OperationStatus::Running)),
    {
        self.status(manager) == Some(OperationStatus::Running)
    }

    /// Whether the task failed.
    pub fn is_failed(&self, manager: &AsyncManager) -> (b: bool)
        requires
            manager.wf(),
        ensures
            b == (manager.status_spec(self.id@) == Some(OperationStatus::Failed)),
    {
        self.status(manager) == Some(OperationStatus::Failed)
    }
}

/// What a clean-up at `now` leaves: nothing changes unless `interval` hours
/// have passed since the last clean-up; then the tasks done on or before
/// `interval` hours before `now` go, with their results and list entries,
/// and the clean-up time becomes `now`.
pub open spec fn cleaned_up(a: AsyncManager, b: AsyncManager, now: i64) -> bool {
    let window = a.cleanup_hours() * 3600;
    if now - a.last_cleanup_spec() < window {
        &&& b.ops() == a.ops()
        &&& b.kinds() == a.kinds()
        &&& b.completed() == a.completed()
        &&& b.failed() == a.failed()
        &&& b.last_cleanup_spec() == a.last_cleanup_spec()
    } else {
        let kept = kept_ops(a.ops(), now - window);
        &&& b.ops() == kept
        &&& b.kinds() == kept_kinds(a.kinds(), kept)
        &&& b.completed() == kept_ids(a.completed(), kept)
        &&& b.failed() == kept_ids(a.failed(), kept)
        &&& b.last_cleanup_spec() == now
    }
}

impl AsyncManager {
    /// Clean up at the current time; see `cleanup_old_operations_at`.
    pub fn cleanup_old_operations(&mut self)
        requires
            old(self).wf(),
        ensures
            final(self).wf(),
            exists|now: i64| #[trigger] cleaned_up(*old(self), *final(self), now),
            final(self).queue() == old(self).queue(),
            final(self).running() == old(self).running(),
    {
        let now = crate::error::now_unix_seconds();
        self.cleanup_old_operations_at(now);
    }
}

/// A task's status reads back how it ended: once its id is listed as done it
/// reads `Completed`; once it is listed as failed, and it is not listed as
/// done, it reads `Failed`.
pub proof fn law_status_after_end(
    queue: Seq<Seq<char>>,
    running: Seq<Seq<char>>,
    completed: Seq<Seq<char>>,
    failed: Seq<Seq<char>>,
    kinds: Seq<(Seq<char>, ResultKind)>,
    id: Seq<char>,
)
    ensures
        status_from(queue, running, completed.push(id), failed, kinds, id) == Some(OperationStatus::Completed),
        !completed.contains(id) ==> status_from(queue, running, completed, failed.push(id), kinds, id) == Some(
            OperationStatus::Failed,
        ),
{
    assert(completed.push(id)[completed.len() as int] == id);
    assert(failed.push(id)[failed.len() as int] == id);
}

/// A stored result kind reads back: with result ids kept distinct, storing
/// a kind for an id makes that id read that kind, keeps the ids distinct,
/// and leaves every other id's kind as it was.
pub proof fn law_result_kind_after_put(
    kinds: Seq<(Seq<char>, ResultKind)>,
    id: Seq<char>,
    kind: ResultKind,
    other: Seq<char>,
)
    requires
        distinct(kinds.map_values(|e: (Seq<char>, ResultKind)| e.0)),
    ensures
        result_kind(put_kind(kinds, id, kind), id) == Some(kind),
        distinct(put_kind(kinds, id, kind).map_values(|e: (Seq<char>, ResultKind)| e.0)),
        other != id ==> result_kind(put_kind(kinds, id, kind), other) == result_kind(kinds, other),
{
    let t = put_kind(kinds, id, kind);
    let ks = kinds.map_values(|e: (Seq<char>, ResultKind)| e.0);
    let ts = t.map_values(|e: (Seq<char>, ResultKind)| e.0);
    // In `kinds`, an id sits at one position at most.
    assert forall|j: int, k: int|
        0 <= j < kinds.len() && 0 <= k < kinds.len() && (#[trigger] kinds[j]).0 == (#[trigger] kinds[k]).0 implies j
        == k by {
        assert(ks[j] == kinds[j].0 && ks[k] == kinds[k].0);
    }
    // Each entry of `t` is the new one or the entry of `kinds` there.
    assert(t.len() >= kinds.len());
    assert forall|j: int| 0 <= j < kinds.len() implies #[trigger] t[j] == kinds[j] || (t[j] == (id, kind)
        && kinds[j].0 == id) by {}
    if exists|i: int| 0 <= i < kinds.len() && (#[trigger] kinds[i]).0 == id {
        assert(t.len() == kinds.len());
        let p = choose|i: int| 0 <= i < kinds.len() && (#[trigger] kinds[i]).0 == id;
        assert(t[p].0 == id);
        assert forall|j: int| 0 <= j < t.len() && (#[trigger] t[j]).0 == id implies t[j] == (id, kind) by {
            if t[j] == kinds[j] {
                assert(j == p);
            }
        }
    } else {
        let n = kinds.len() as int;
        assert(t.len() == n + 1);
        assert(t[n] == (id, kind));
        assert forall|j: int| 0 <= j < n implies #[trigger] t[j] == kinds[j] && t[j].0 != id by {}
    }
    assert forall|a: int, b: int| 0 <= a < ts.len() && 0 <= b < ts.len() && a != b implies #[trigger] ts[a]
        != #[trigger] ts[b] by {
        assert(ts[a] == t[a].0 && ts[b] == t[b].0);
        if a < kinds.len() && b < kinds.len() {
            if t[a].0 == t[b].0 {
                if t[a] == kinds[a] && t[b] == kinds[b] {
                } else if t[a] == kinds[a] {
                    assert(kinds[b].0 == id);
                } else {
                    assert(kinds[a].0 == id);
                }
            }
        }
    }
    assert(exists|i: int| 0 <= i < t.len() && (#[trigger] t[i]).0 == id);
    if other != id {
        assert forall|j: int| 0 <= j < kinds.len() && (#[trigger] kinds[j]).0 == other implies t[j] == kinds[j] by {}
        assert forall|j: int| 0 <= j < t.len() && (#[trigger] t[j]).0 == other implies j < kinds.len() && t[j]
            == kinds[j] by {}
        if exists|i: int| 0 <= i < kinds.len() && (#[trigger] kinds[i]).0 == other {
            let j = choose|i: int| 0 <= i < kinds.len() && (#[trigger] kinds[i]).0 == other;
            assert(t[j].0 == other);
            let c = choose|i: int| 0 <= i < t.len() && (#[trigger] t[i]).0 == other;
            assert(t[c] == kinds[c]);
            assert(c == j);
        }
    }
}

/// A task withdrawn from the queue reads `Cancelled`: when its id was queued
/// once and is neither done, failed nor running, taking it out of the queue
/// and storing a cancelled result makes its status `Cancelled`.
pub proof fn law_cancelled_task_reads_cancelled(
    queue: Seq<Seq<char>>,
    running: Seq<Seq<char>>,
    completed: Seq<Seq<char>>,
    failed: Seq<Seq<char>>,
    kinds: Seq<(Seq<char>, ResultKind)>,
    id: Seq<char>,
)
    requires
        distinct(queue),
        queue.contains(id),
        distinct(kinds.map_values(|e: (Seq<char>, ResultKind)| e.0)),
        !completed.contains(id),
        !failed.contains(id),
        !running.contains(id),
    ensures
        status_from(
            queue.remove(first_index(queue, id)),
            running,
            completed,
            failed,
            put_kind(kinds, id, ResultKind::Cancelled),
            id,
        ) == Some(OperationStatus::Cancelled),
{
    lemma_first_index(queue, id);
    let p = first_index(queue, id);
    let q = queue.remove(p);
    if q.contains(id) {
        let k = choose|k: int| 0 <= k < q.len() && q[k] == id;
        let ok = if k < p { k } else { k + 1 };
        assert(q[k] == queue[ok]);
        assert(queue[ok] == queue[p]);
    }
    law_result_kind_after_put(kinds, id, ResultKind::Cancelled, id);
}

/// Working through the queue never runs more tasks than allowed: when no
/// more than `max` tasks run before, no more than `max` run after, no task
/// runs twice, and every task that ran before still runs.
pub proof fn law_queue_respects_limit(
    ops: Seq<AsyncOperation>,
    queue: Seq<Seq<char>>,
    running: Seq<Seq<char>>,
    completed: Seq<Seq<char>>,
    max: int,
)
    requires
        running.len() <= max,
        distinct(running),
    ensures
        pq(ops, queue, running, completed, max).1.len() <= max,
        distinct(pq(ops, queue, running, completed, max).1),
        forall|x: Seq<char>| running.contains(x) ==> #[trigger] pq(ops, queue, running, completed, max).1.contains(x),
    decreases queue.len(),
{
    if running.len() >= max || queue.len() == 0 {
    } else {
        let id = queue[0];
        let rest = queue.drop_first();
        if has_op(ops, id) {
            if deps_ok(ops, id, completed) {
                let r2 = set_insert(running, id);
                if !running.contains(id) {
                    assert forall|a: int, b: int| 0 <= a < r2.len() && 0 <= b < r2.len() && a != b implies #[trigger] r2[a]
                        != #[trigger] r2[b] by {
                        if a == running.len() {
                            assert(r2[b] == running[b]);
                        } else if b == running.len() {
                            assert(r2[a] == running[a]);
                        }
                    }
                    assert forall|x: Seq<char>| running.contains(x) implies #[trigger] r2.contains(x) by {
                        let k = choose|k: int| 0 <= k < running.len() && running[k] == x;
                        assert(r2[k] == x);
                    }
                }
                law_queue_respects_limit(ops, rest, r2, completed, max);
            }
        } else {
            law_queue_respects_limit(ops, rest, running, completed, max);
        }
    }
}

} // verus!
