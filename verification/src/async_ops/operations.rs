//! Background tasks: their kinds, results, priorities and settings, and
//! ready-made groups of them. Times are Unix seconds.
use vstd::prelude::*;
use crate::async_ops::progress::{remaining_from, ProgressTracker};
use crate::error::now_unix_seconds;
use crate::models::{PriceRecord, Product, Store, User};
use crate::table::views_of;
use crate::text::{owned, str_eq, string_from_chars};
use crate::utils::crypto::{new_uuid_string, uuid_text};
use crate::utils::numbers::{nat_decimal, u64_decimal};

verus! {

broadcast use vstd::string::group_string_axioms;

/// What a task does.
#[derive(Debug, Clone, Copy, PartialEq, Eq, Structural, Hash)]
pub enum OperationType {
    DataSync,
    DataBackup,
    DataImport,
    DataExport,
    PriceMonitoring,
    PriceAnalysis,
    PriceComparison,
    PriceHistoryUpdate,
    ProductSearch,
    StoreSearch,
    AdvancedSearch,
    IndexBuilding,
    CameraCapture,
    BarcodeScanning,
    ImageProcessing,
    OCRProcessing,
    ApiRequest,
    FileDownload,
    FileUpload,
    CloudSync,
    DatabaseQuery,
    DatabaseUpdate,
    DatabaseMigration,
    DatabaseOptimization,
    NotificationSend,
    AlertProcessing,
    EmailSend,
    PushNotification,
}

/// What a task gave back; JSON is carried as its text.
#[derive(Debug)]
pub enum OperationData {
    Products(Vec<Product>),
    Stores(Vec<Store>),
    PriceRecords(Vec<PriceRecord>),
    Users(Vec<User>),
    Text(String),
    Bytes(Vec<u8>),
    Json(String),
    Count(usize),
    Bool(bool),
    Empty,
}

/// Why a task failed.
#[derive(Debug, Clone)]
pub enum OperationError {
    NetworkError(String),
    DatabaseError(String),
    PermissionDenied(String),
    InvalidInput(String),
    ProcessingError(String),
    TimeoutError(String),
    CancellationError(String),
    ResourceUnavailable(String),
    InternalError(String),
}

/// How a task ended.
#[derive(Debug)]
pub enum OperationResult {
    Success(OperationData),
    Failure(OperationError),
    Cancelled,
}

/// The text a task error shows.
pub open spec fn operation_error_text(e: OperationError) -> Seq<char> {
    match e {
        OperationError::NetworkError(m) => "Network error: "@ + m@,
        OperationError::DatabaseError(m) => "Database error: "@ + m@,
        OperationError::PermissionDenied(m) => "Permission denied: "@ + m@,
        OperationError::InvalidInput(m) => "Invalid input: "@ + m@,
        OperationError::ProcessingError(m) => "Processing error: "@ + m@,
        OperationError::TimeoutError(m) => "Timeout error: "@ + m@,
        OperationError::CancellationError(m) => "Cancellation error: "@ + m@,
        OperationError::ResourceUnavailable(m) => "Resource unavailable: "@ + m@,
        OperationError::InternalError(m) => "Internal error: "@ + m@,
    }
}

impl OperationError {
    /// The displayed text of the error.
    pub fn message(&self) -> (r: String)
        ensures
            r@ == operation_error_text(*self),
    {
        let (prefix, detail) = match self {
            OperationError::NetworkError(m) => ("Network error: ", m.as_str()),
            OperationError::DatabaseError(m) => ("Database error: ", m.as_str()),
            OperationError::PermissionDenied(m) => ("Permission denied: ", m.as_str()),
            OperationError::InvalidInput(m) => ("Invalid input: ", m.as_str()),
            OperationError::ProcessingError(m) => ("Processing error: ", m.as_str()),
            OperationError::TimeoutError(m) => ("Timeout error: ", m.as_str()),
            OperationError::CancellationError(m) => ("Cancellation error: ", m.as_str()),
            OperationError::ResourceUnavailable(m) => ("Resource unavailable: ", m.as_str()),
            OperationError::InternalError(m) => ("Internal error: ", m.as_str()),
        };
        let mut s = owned(prefix);
        s.append(detail);
        s
    }
}

/// How urgent a task is, least first.
#[derive(Debug, Clone, Copy, PartialEq, Eq, Structural, PartialOrd, Ord, Hash)]
pub enum OperationPriority {
    Low,
    Normal,
    High,
    Critical,
}

impl Default for OperationPriority {
    fn default() -> (r: Self)
        ensures
            r == OperationPriority::Normal,
    {
        OperationPriority::Normal
    }
}

/// Who asked for a task, with free tags and key/value context.
#[derive(Debug, Clone)]
pub struct OperationMetadata {
    pub user_id: Option<String>,
    pub session_id: Option<String>,
    pub request_id: Option<String>,
    pub tags: Vec<String>,
    pub context: Vec<(String, String)>,
}

impl Default for OperationMetadata {
    fn default() -> (r: Self)
        ensures
            r.user_id is None,
            r.session_id is None,
            r.request_id is None,
            r.tags@.len() == 0,
            r.context@.len() == 0,
    {
        OperationMetadata { user_id: None, session_id: None, request_id: None, tags: Vec::new(), context: Vec::new() }
    }
}

impl OperationMetadata {
    /// A copy of the metadata.
    pub fn copy(&self) -> (r: Self)
        ensures
            same_metadata(r, *self),
    {
        let mut ctx: Vec<(String, String)> = Vec::new();
        let mut i: usize = 0;
        while i < self.context.len()
            invariant
                i <= self.context@.len(),
                ctx@ == self.context@.subrange(0, i as int),
            decreases self.context.len() - i,
        {
            ctx.push((self.context[i].0.clone(), self.context[i].1.clone()));
            assert(ctx@ =~= self.context@.subrange(0, i + 1));
            i = i + 1;
        }
        assert(ctx@ =~= self.context@);
        OperationMetadata {
            user_id: match &self.user_id {
                Some(x) => Some(x.clone()),
                None => None,
            },
            session_id: match &self.session_id {
                Some(x) => Some(x.clone()),
                None => None,
            },
            request_id: match &self.request_id {
                Some(x) => Some(x.clone()),
                None => None,
            },
            tags: crate::models::copy_strings(&self.tags),
            context: ctx,
        }
    }
}

/// Two metadata records hold the same values.
pub open spec fn same_metadata(a: OperationMetadata, b: OperationMetadata) -> bool {
    &&& a.user_id == b.user_id
    &&& a.session_id == b.session_id
    &&& a.request_id == b.request_id
    &&& a.tags@ == b.tags@
    &&& a.context@ == b.context@
}

/// Two tasks hold the same values.
pub open spec fn same_operation(a: AsyncOperation, b: AsyncOperation) -> bool {
    &&& a.id == b.id
    &&& a.operation_type == b.operation_type
    &&& a.description == b.description
    &&& a.created_at == b.created_at
    &&& a.started_at == b.started_at
    &&& a.completed_at == b.completed_at
    &&& crate::async_ops::progress::same_tracker(a.progress_tracker, b.progress_tracker)
    &&& a.dependencies@ == b.dependencies@
    &&& a.priority == b.priority
    &&& a.retry_count == b.retry_count
    &&& a.max_retries == b.max_retries
    &&& a.timeout_seconds == b.timeout_seconds
    &&& a.cancellable == b.cancellable
    &&& same_metadata(a.metadata, b.metadata)
}

/// Key/value pairs as plain values.
pub open spec fn pairs_view(v: Seq<(String, String)>) -> Seq<(Seq<char>, Seq<char>)> {
    v.map_values(|e: (String, String)| (e.0@, e.1@))
}

/// The pairs with `key` set to `value`: in place of its pair, or added last.
pub open spec fn put_pair(v: Seq<(Seq<char>, Seq<char>)>, key: Seq<char>, value: Seq<char>) -> Seq<
    (Seq<char>, Seq<char>),
> {
    if exists|i: int| 0 <= i < v.len() && (#[trigger] v[i]).0 == key {
        let i = choose|i: int| 0 <= i < v.len() && (#[trigger] v[i]).0 == key;
        v.update(i, (key, value))
    } else {
        v.push((key, value))
    }
}

/// No key twice.
pub open spec fn keys_unique(v: Seq<(Seq<char>, Seq<char>)>) -> bool {
    forall|a: int, b: int| 0 <= a < v.len() && 0 <= b < v.len() && a != b ==> #[trigger] v[a].0 != #[trigger] v[b].0
}

/// A background task.
#[derive(Debug)]
pub struct AsyncOperation {
    pub id: String,
    pub operation_type: OperationType,
    pub description: String,
    pub created_at: i64,
    pub started_at: Option<i64>,
    pub completed_at: Option<i64>,
    pub progress_tracker: ProgressTracker,
    pub dependencies: Vec<String>,
    pub priority: OperationPriority,
    pub retry_count: u32,
    pub max_retries: u32,
    pub timeout_seconds: Option<u64>,
    pub cancellable: bool,
    pub metadata: OperationMetadata,
}

/// A fresh task's settings: three retries, five minutes, cancellable, no
/// dependencies, no metadata, not started.
pub open spec fn fresh_task(op: AsyncOperation, t: OperationType, description: Seq<char>, priority: OperationPriority) -> bool {
    &&& uuid_text(op.id@)
    &&& op.operation_type == t
    &&& op.description@ == description
    &&& op.started_at is None
    &&& op.completed_at is None
    &&& op.progress_tracker.progress_spec() == 0
    &&& op.progress_tracker.wf()
    &&& op.dependencies@.len() == 0
    &&& op.priority == priority
    &&& op.retry_count == 0
    &&& op.max_retries == 3
    &&& op.timeout_seconds == Some(300u64)
    &&& op.cancellable
    &&& op.metadata.user_id is None
    &&& op.metadata.session_id is None
    &&& op.metadata.request_id is None
    &&& op.metadata.tags@.len() == 0
    &&& op.metadata.context@.len() == 0
}

/// How long a task ran: from start to end, or to `now` while running.
pub open spec fn run_time(started: Option<i64>, completed: Option<i64>, now: i64) -> Option<i128> {
    match (started, completed) {
        (Some(s), Some(c)) => Some((c - s) as i128),
        (Some(s), None) => Some((now - s) as i128),
        _ => None,
    }
}

/// Whether a task has run longer than its time limit at `now`.
pub open spec fn timed_out(started: Option<i64>, timeout: Option<u64>, now: i64) -> bool {
    match (started, timeout) {
        (Some(s), Some(t)) => now - s > t,
        _ => false,
    }
}

/// The text of a task's state: done, running with a whole percentage, or
/// waiting.
pub open spec fn status_line(completed: bool, started: bool, progress: int) -> Seq<char> {
    if completed {
        "Completed"@
    } else if started {
        "Running ("@ + nat_decimal((progress / 10) as nat) + "%)"@
    } else {
        "Pending"@
    }
}

/// Seconds left for a task started at `started` with progress `progress`,
/// at `now`, while under way.
pub open spec fn remaining_at(started: Option<i64>, progress: int, now: i64) -> Option<u64> {
    match remaining_from(
        match started {
            Some(s) => Some((now - s) as i128),
            None => None,
        },
        progress,
    ) {
        Some(x) => Some(x as u64),
        None => None,
    }
}

impl AsyncOperation {
    /// A task of a kind, created now with a fresh id.
    pub fn new(operation_type: OperationType, description: String, priority: OperationPriority) -> (r: Self)
        ensures
            fresh_task(r, operation_type, description@, priority),
    {
        AsyncOperation {
            id: new_uuid_string(),
            operation_type,
            description,
            created_at: now_unix_seconds(),
            started_at: None,
            completed_at: None,
            progress_tracker: ProgressTracker::new(),
            dependencies: Vec::new(),
            priority,
            retry_count: 0,
            max_retries: 3,
            timeout_seconds: Some(300),
            cancellable: true,
            metadata: OperationMetadata::default(),
        }
    }

    /// A data synchronisation task.
    pub fn data_sync(description: String) -> (r: Self)
        ensures
            fresh_task(r, OperationType::DataSync, description@, OperationPriority::Normal),
    {
        Self::new(OperationType::DataSync, description, OperationPriority::Normal)
    }

    /// A price monitoring task.
    pub fn price_monitoring(description: String) -> (r: Self)
        ensures
            fresh_task(r, OperationType::PriceMonitoring, description@, OperationPriority::High),
    {
        Self::new(OperationType::PriceMonitoring, description, OperationPriority::High)
    }

    /// A product search task.
    pub fn search_operation(description: String) -> (r: Self)
        ensures
            fresh_task(r, OperationType::ProductSearch, description@, OperationPriority::Normal),
    {
        Self::new(OperationType::ProductSearch, description, OperationPriority::Normal)
    }

    /// A camera capture task.
    pub fn camera_capture(description: String) -> (r: Self)
        ensures
            fresh_task(r, OperationType::CameraCapture, description@, OperationPriority::High),
    {
        Self::new(OperationType::CameraCapture, description, OperationPriority::High)
    }

    /// A database query task.
    pub fn database_operation(description: String) -> (r: Self)
        ensures
            fresh_task(r, OperationType::DatabaseQuery, description@, OperationPriority::Normal),
    {
        Self::new(OperationType::DatabaseQuery, description, OperationPriority::Normal)
    }

    /// Wait for another task, once.
    pub fn add_dependency(&mut self, operation_id: String)
        ensures
            views_of(old(self).dependencies@).contains(operation_id@) ==> final(self).dependencies@
                == old(self).dependencies@,
            !views_of(old(self).dependencies@).contains(operation_id@) ==> final(self).dependencies@
                == old(self).dependencies@.push(operation_id),
            final(self).id == old(self).id,
            final(self).operation_type == old(self).operation_type,
            final(self).description == old(self).description,
            final(self).priority == old(self).priority,
            final(self).timeout_seconds == old(self).timeout_seconds,
            final(self).created_at == old(self).created_at,
            final(self).progress_tracker == old(self).progress_tracker,
            final(self).metadata == old(self).metadata,
            final(self).cancellable == old(self).cancellable,
            final(self).retry_count == old(self).retry_count,
            final(self).max_retries == old(self).max_retries,
            final(self).started_at == old(self).started_at,
            final(self).completed_at == old(self).completed_at,
    {
        if !crate::table::holds_string(&self.dependencies, operation_id.as_str()) {
            self.dependencies.push(operation_id);
        }
    }

    /// The task with other metadata.
    pub fn with_metadata(self, metadata: OperationMetadata) -> (r: Self)
        ensures
            r == (AsyncOperation { metadata, ..self }),
    {
        AsyncOperation { metadata, ..self }
    }

    /// The task with another time limit.
    pub fn with_timeout(self, timeout_seconds: u64) -> (r: Self)
        ensures
            r == (AsyncOperation { timeout_seconds: Some(timeout_seconds), ..self }),
    {
        AsyncOperation { timeout_seconds: Some(timeout_seconds), ..self }
    }

    /// The task with another number of retries.
    pub fn with_retries(self, max_retries: u32) -> (r: Self)
        ensures
            r == (AsyncOperation { max_retries, ..self }),
    {
        AsyncOperation { max_retries, ..self }
    }

    /// The task, no longer cancellable.
    pub fn non_cancellable(self) -> (r: Self)
        ensures
            r == (AsyncOperation { cancellable: false, ..self }),
    {
        AsyncOperation { cancellable: false, ..self }
    }

    /// The task with other tags.
    pub fn with_tags(self, tags: Vec<String>) -> (r: Self)
        ensures
            r == (AsyncOperation { metadata: OperationMetadata { tags, ..self.metadata }, ..self }),
    {
        let mut s = self;
        s.metadata.tags = tags;
        s
    }

    /// The task with a context key set to a value.
    pub fn with_context(self, key: String, value: String) -> (r: Self)
        requires
            keys_unique(pairs_view(self.metadata.context@)),
        ensures
            keys_unique(pairs_view(r.metadata.context@)),
            pairs_view(r.metadata.context@) == put_pair(pairs_view(self.metadata.context@), key@, value@),
            r.metadata.tags == self.metadata.tags,
            r.metadata.user_id == self.metadata.user_id,
            r.id == self.id,
            r.operation_type == self.operation_type,
            r.description == self.description,
            r.dependencies == self.dependencies,
            r.priority == self.priority,
            r.retry_count == self.retry_count,
            r.max_retries == self.max_retries,
            r.timeout_seconds == self.timeout_seconds,
            r.cancellable == self.cancellable,
            r.started_at == self.started_at,
            r.completed_at == self.completed_at,
            r.progress_tracker == self.progress_tracker,
    {
        let mut s = self;
        let ghost orig = s;
        let ghost before = pairs_view(s.metadata.context@);
        let mut i: usize = 0;
        while i < s.metadata.context.len()
            invariant
                s == orig,
                orig == self,
                before == pairs_view(s.metadata.context@),
                keys_unique(before),
                i <= before.len(),
                forall|k: int| 0 <= k < i ==> (#[trigger] before[k]).0 != key@,
            decreases s.metadata.context.len() - i,
        {
            if str_eq(s.metadata.context[i].0.as_str(), key.as_str()) {
                assert(before[i as int].0 == key@);
                let ghost w = choose|w: int| 0 <= w < before.len() && (#[trigger] before[w]).0 == key@;
                assert(w == i as int);
                let k2 = s.metadata.context[i].0.clone();
                s.metadata.context.set(i, (k2, value));
                assert(pairs_view(s.metadata.context@) =~= before.update(i as int, (key@, value@)));
                return s;
            }
            i = i + 1;
        }
        s.metadata.context.push((key, value));
        assert(pairs_view(s.metadata.context@) =~= before.push((key@, value@)));
        s
    }

    /// Whether the task has run past its time limit at `now`.
    pub fn is_timed_out_at(&self, now: i64) -> (b: bool)
        ensures
            b == timed_out(self.started_at, self.timeout_seconds, now),
    {
        match (self.started_at, self.timeout_seconds) {
            (Some(s), Some(t)) => (now as i128) - (s as i128) > (t as i128),
            _ => false,
        }
    }

    /// Whether the task has run past its time limit now.
    pub fn is_timed_out(&self) -> (b: bool)
        ensures
            exists|now: i64| b == timed_out(self.started_at, self.timeout_seconds, now),
    {
        let now = now_unix_seconds();
        self.is_timed_out_at(now)
    }

    /// Whether a retry is left.
    pub fn can_retry(&self) -> (b: bool)
        ensures
            b == (self.retry_count < self.max_retries),
    {
        self.retry_count < self.max_retries
    }

    /// Count a retry.
    pub fn increment_retry(&mut self)
        requires
            old(self).retry_count < u32::MAX,
        ensures
            *final(self) == (AsyncOperation { retry_count: (old(self).retry_count + 1) as u32, ..*old(self) }),
    {
        self.retry_count = self.retry_count + 1;
    }

    /// Mark the task started at `now`.
    pub fn mark_started_at(&mut self, now: i64)
        ensures
            *final(self) == (AsyncOperation { started_at: Some(now), ..*old(self) }),
    {
        self.started_at = Some(now);
    }

    /// Mark the task done at `now`, its progress complete.
    pub fn mark_completed_at(&mut self, now: i64)
        ensures
            final(self).completed_at == Some(now),
            final(self).progress_tracker.progress_spec() == 1000,
            final(self).progress_tracker.wf(),
            final(self).progress_tracker.message_spec() == "Completed"@,
            final(self).id == old(self).id,
            final(self).started_at == old(self).started_at,
            final(self).dependencies == old(self).dependencies,
            final(self).operation_type == old(self).operation_type,
    {
        self.completed_at = Some(now);
        self.progress_tracker.complete_at(now);
    }

    /// How long the task ran: from start to end, or to `now` while running.
    pub fn duration_seconds_at(&self, now: i64) -> (r: Option<i128>)
        ensures
            r == run_time(self.started_at, self.completed_at, now),
    {
        match (self.started_at, self.completed_at) {
            (Some(s), Some(c)) => Some((c as i128) - (s as i128)),
            (Some(s), None) => Some((now as i128) - (s as i128)),
            _ => None,
        }
    }

    /// Mark the task started now.
    pub fn mark_started(&mut self)
        ensures
            final(self).started_at is Some,
            *final(self) == (AsyncOperation { started_at: final(self).started_at, ..*old(self) }),
    {
        let now = now_unix_seconds();
        self.mark_started_at(now);
    }

    /// Mark the task done now, its progress complete.
    pub fn mark_completed(&mut self)
        ensures
            final(self).completed_at is Some,
            final(self).progress_tracker.progress_spec() == 1000,
            final(self).id == old(self).id,
            final(self).started_at == old(self).started_at,
            final(self).dependencies == old(self).dependencies,
            final(self).operation_type == old(self).operation_type,
    {
        let now = now_unix_seconds();
        self.mark_completed_at(now);
    }

    /// How long the task ran, up to now while running.
    pub fn duration_seconds(&self) -> (r: Option<i128>)
        ensures
            exists|now: i64| r == #[trigger] run_time(self.started_at, self.completed_at, now),
    {
        let now = now_unix_seconds();
        self.duration_seconds_at(now)
    }

    /// Seconds left at the pace so far, now, while under way.
    pub fn estimated_remaining_seconds(&self) -> (r: Option<u64>)
        ensures
            exists|now: i64| r == #[trigger] remaining_at(self.started_at, self.progress_tracker.progress_spec() as int, now),
    {
        let now = now_unix_seconds();
        let r = self.estimated_remaining_seconds_at(now);
        assert(r == remaining_at(self.started_at, self.progress_tracker.progress_spec() as int, now));
        r
    }

    /// Seconds left at the pace so far, at `now`, while under way.
    pub fn estimated_remaining_seconds_at(&self, now: i64) -> (r: Option<u64>)
        ensures
            r == (match remaining_from(
                match self.started_at {
                    Some(s) => Some((now - s) as i128),
                    None => None,
                },
                self.progress_tracker.progress_spec() as int,
            ) {
                Some(x) => Some(x as u64),
                None => None,
            }),
    {
        let e: i128 = match self.started_at {
            Some(s) => (now as i128) - (s as i128),
            None => {
                return None;
            },
        };
        let p = self.progress_tracker.progress();
        if p > 0 && p < 1000 {
            let t: i128 = if e >= 0 {
                e * 1000 / (p as i128)
            } else {
                -((-e) * 1000 / (p as i128))
            };
            let r = t - e;
            if r > 0 {
                assert(r <= 0x1_0000_0000_0000_0000_0000) by (nonlinear_arith)
                    requires
                        r == t - e,
                        -0x1_0000_0000_0000_0000 <= e <= 0x1_0000_0000_0000_0000,
                        e >= 0 ==> t == e * 1000 / (p as int),
                        e < 0 ==> t == -((-e) * 1000 / (p as int)),
                        0 < p < 1000,
                ;
                Some(r as u64)
            } else {
                Some(0)
            }
        } else {
            None
        }
    }

    /// A copy of the task.
    pub fn copy(&self) -> (r: Self)
        ensures
            same_operation(r, *self),
    {
        AsyncOperation {
            id: self.id.clone(),
            operation_type: self.operation_type,
            description: self.description.clone(),
            created_at: self.created_at,
            started_at: self.started_at,
            completed_at: self.completed_at,
            progress_tracker: self.progress_tracker.copy(),
            dependencies: crate::models::copy_strings(&self.dependencies),
            priority: self.priority,
            retry_count: self.retry_count,
            max_retries: self.max_retries,
            timeout_seconds: self.timeout_seconds,
            cancellable: self.cancellable,
            metadata: self.metadata.copy(),
        }
    }

    /// Whether every task this one waits for is among the completed ones.
    pub fn dependencies_satisfied(&self, completed_operations: &Vec<String>) -> (b: bool)
        ensures
            b == (forall|i: int|
                0 <= i < self.dependencies@.len() ==> views_of(completed_operations@).contains(
                    #[trigger] self.dependencies@[i]@,
                )),
    {
        let mut i: usize = 0;
        while i < self.dependencies.len()
            invariant
                i <= self.dependencies@.len(),
                forall|k: int| 0 <= k < i ==> views_of(completed_operations@).contains(#[trigger] self.dependencies@[k]@),
            decreases self.dependencies.len() - i,
        {
            if !crate::table::holds_string(completed_operations, self.dependencies[i].as_str()) {
                return false;
            }
            i = i + 1;
        }
        true
    }

    /// "Completed", "Running (n%)" or "Pending".
    pub fn status_text(&self) -> (s: String)
        requires
            self.progress_tracker.wf(),
        ensures
            s@ == status_line(
                self.completed_at is Some,
                self.started_at is Some,
                self.progress_tracker.progress_spec() as int,
            ),
    {
        if self.completed_at.is_some() {
            owned("Completed")
        } else if self.started_at.is_some() {
            let pct = self.progress_tracker.progress() / 10;
            let mut s = owned("Running (");
            let d = u64_decimal(pct as u64);
            let ds = string_from_chars(&d);
            s.append(ds.as_str());
            s.append("%)");
            s
        } else {
            owned("Pending")
        }
    }
}

/// Ready-made groups of tasks.
pub struct OperationFactory;

impl OperationFactory {
    /// One sync task per item, "Sync {item}", tagged `batch` and `sync`,
    /// with its position as `batch_index`.
    pub fn create_data_sync_batch(items: Vec<String>) -> (r: Vec<AsyncOperation>)
        ensures
            r@.len() == items@.len(),
            forall|i: int|
                0 <= i < items@.len() ==> {
                    &&& (#[trigger] r@[i]).operation_type == OperationType::DataSync
                    &&& r@[i].description@ == "Sync "@ + items@[i]@
                    &&& views_of(r@[i].metadata.tags@) == seq!["batch"@, "sync"@]
                    &&& pairs_view(r@[i].metadata.context@) == seq![("batch_index"@, nat_decimal(i as nat))]
                    &&& uuid_text(r@[i].id@)
                },
    {
        let mut out: Vec<AsyncOperation> = Vec::new();
        let mut i: usize = 0;
        while i < items.len()
            invariant
                i <= items@.len(),
                out@.len() == i,
                forall|k: int|
                    0 <= k < i ==> {
                        &&& (#[trigger] out@[k]).operation_type == OperationType::DataSync
                        &&& out@[k].description@ == "Sync "@ + items@[k]@
                        &&& views_of(out@[k].metadata.tags@) == seq!["batch"@, "sync"@]
                        &&& pairs_view(out@[k].metadata.context@) == seq![("batch_index"@, nat_decimal(k as nat))]
                        &&& uuid_text(out@[k].id@)
                    },
            decreases items.len() - i,
        {
            let mut d = owned("Sync ");
            d.append(items[i].as_str());
            let idx = string_from_chars(&u64_decimal(i as u64));
            let mut tags: Vec<String> = Vec::new();
            tags.push(owned("batch"));
            tags.push(owned("sync"));
            let op = AsyncOperation::data_sync(d).with_context(owned("batch_index"), idx).with_tags(tags);
            assert(views_of(op.metadata.tags@) =~= seq!["batch"@, "sync"@]);
            assert(pairs_view(op.metadata.context@) =~= seq![("batch_index"@, nat_decimal(i as nat))]);
            out.push(op);
            i = i + 1;
        }
        out
    }

    /// A price fetch task, then one analysis task per product waiting for
    /// it, each with its product as `product_id`.
    pub fn create_price_monitoring_chain(product_ids: Vec<String>) -> (r: Vec<AsyncOperation>)
        ensures
            r@.len() == product_ids@.len() + 1,
            r@[0].operation_type == OperationType::PriceComparison,
            r@[0].description@ == "Fetch current prices"@,
            r@[0].priority == OperationPriority::High,
            views_of(r@[0].metadata.tags@) == seq!["price"@, "fetch"@],
            forall|i: int|
                0 <= i < product_ids@.len() ==> {
                    &&& (#[trigger] r@[i + 1]).operation_type == OperationType::PriceAnalysis
                    &&& r@[i + 1].description@ == "Analyze price for product "@ + product_ids@[i]@
                    &&& r@[i + 1].priority == OperationPriority::Normal
                    &&& views_of(r@[i + 1].dependencies@) == seq![r@[0].id@]
                    &&& pairs_view(r@[i + 1].metadata.context@) == seq![("product_id"@, product_ids@[i]@)]
                },
    {
        let mut tags: Vec<String> = Vec::new();
        tags.push(owned("price"));
        tags.push(owned("fetch"));
        let fetch = AsyncOperation::new(
            OperationType::PriceComparison,
            owned("Fetch current prices"),
            OperationPriority::High,
        ).with_tags(tags);
        let fetch_id = fetch.id.clone();
        assert(views_of(fetch.metadata.tags@) =~= seq!["price"@, "fetch"@]);
        let mut out: Vec<AsyncOperation> = Vec::new();
        out.push(fetch);
        let mut i: usize = 0;
        while i < product_ids.len()
            invariant
                i <= product_ids@.len(),
                out@.len() == i + 1,
                fetch_id@ == out@[0].id@,
                out@[0].operation_type == OperationType::PriceComparison,
                out@[0].description@ == "Fetch current prices"@,
                out@[0].priority == OperationPriority::High,
                views_of(out@[0].metadata.tags@) == seq!["price"@, "fetch"@],
                forall|k: int|
                    0 <= k < i ==> {
                        &&& (#[trigger] out@[k + 1]).operation_type == OperationType::PriceAnalysis
                        &&& out@[k + 1].description@ == "Analyze price for product "@ + product_ids@[k]@
                        &&& out@[k + 1].priority == OperationPriority::Normal
                        &&& views_of(out@[k + 1].dependencies@) == seq![out@[0].id@]
                        &&& pairs_view(out@[k + 1].metadata.context@) == seq![("product_id"@, product_ids@[k]@)]
                    },
            decreases product_ids.len() - i,
        {
            let mut d = owned("Analyze price for product ");
            d.append(product_ids[i].as_str());
            let mut op = AsyncOperation::new(OperationType::PriceAnalysis, d, OperationPriority::Normal);
            op.add_dependency(fetch_id.clone());
            let op = op.with_context(owned("product_id"), product_ids[i].clone());
            assert(views_of(op.dependencies@) =~= seq![fetch_id@]);
            assert(pairs_view(op.metadata.context@) =~= seq![("product_id"@, product_ids@[i as int]@)]);
            let ghost prev = out@;
            out.push(op);
            assert(forall|k: int| 0 <= k < i ==> #[trigger] out@[k + 1] == prev[k + 1]);
            i = i + 1;
        }
        out
    }

    /// A low-priority index rebuild: half an hour, one retry, tagged
    /// `search` and `index`.
    pub fn create_search_indexing() -> (r: AsyncOperation)
        ensures
            r.operation_type == OperationType::IndexBuilding,
            r.description@ == "Rebuild search index"@,
            r.priority == OperationPriority::Low,
            r.timeout_seconds == Some(1800u64),
            r.max_retries == 1,
            views_of(r.metadata.tags@) == seq!["search"@, "index"@],
            r.cancellable,
    {
        let mut tags: Vec<String> = Vec::new();
        tags.push(owned("search"));
        tags.push(owned("index"));
        let r = AsyncOperation::new(
            OperationType::IndexBuilding,
            owned("Rebuild search index"),
            OperationPriority::Low,
        ).with_timeout(1800).with_retries(1).with_tags(tags);
        assert(views_of(r.metadata.tags@) =~= seq!["search"@, "index"@]);
        r
    }

    /// A low-priority backup: an hour, two retries, not cancellable, with
    /// its kind as `backup_type`.
    pub fn create_backup_operation(backup_type: &str) -> (r: AsyncOperation)
        ensures
            r.operation_type == OperationType::DataBackup,
            r.description@ == "Create "@ + backup_type@ + " backup"@,
            r.priority == OperationPriority::Low,
            r.timeout_seconds == Some(3600u64),
            r.max_retries == 2,
            !r.cancellable,
            pairs_view(r.metadata.context@) == seq![("backup_type"@, backup_type@)],
    {
        let mut d = owned("Create ");
        d.append(backup_type);
        d.append(" backup");
        let r = AsyncOperation::new(OperationType::DataBackup, d, OperationPriority::Low).with_timeout(
            3600,
        ).with_retries(2).non_cancellable().with_context(owned("backup_type"), owned(backup_type));
        assert(pairs_view(r.metadata.context@) =~= seq![("backup_type"@, backup_type@)]);
        r
    }
}

} // verus!
