//! Application error kinds, error context, recovery advice and the error
//! history kept for the user interface.
use vstd::prelude::*;
use crate::text::owned;

verus! {

broadcast use vstd::string::group_string_axioms;

/// Centralised error kinds; each carries a message.
#[derive(Debug)]
pub enum AppError {
    Authentication(String),
    Alert(String),
    Database(String),
    Service(String),
    FileSystem(String),
    Validation(String),
    Configuration(String),
    Network(String),
    Ocr(String),
    Scanner(String),
    Serialization(String),
    Internal(String),
    BusinessLogic(String),
    ExternalService(String),
}

/// Text that `AppError`'s display begins with, per kind.
pub open spec fn app_error_prefix(e: AppError) -> Seq<char> {
    match e {
        AppError::Authentication(_) => "Authentication error: "@,
        AppError::Alert(_) => "Alert error: "@,
        AppError::Database(_) => "Database error: "@,
        AppError::Service(_) => "Service error: "@,
        AppError::FileSystem(_) => "File system error: "@,
        AppError::Validation(_) => "Validation error: "@,
        AppError::Configuration(_) => "Configuration error: "@,
        AppError::Network(_) => "Network error: "@,
        AppError::Ocr(_) => "OCR error: "@,
        AppError::Scanner(_) => "Scanner error: "@,
        AppError::Serialization(_) => "Serialization error: "@,
        AppError::Internal(_) => "Internal error: "@,
        AppError::BusinessLogic(_) => "Business logic error: "@,
        AppError::ExternalService(_) => "External service error: "@,
    }
}

/// The message an `AppError` carries.
pub open spec fn app_error_detail(e: AppError) -> Seq<char> {
    match e {
        AppError::Authentication(m) => m@,
        AppError::Alert(m) => m@,
        AppError::Database(m) => m@,
        AppError::Service(m) => m@,
        AppError::FileSystem(m) => m@,
        AppError::Validation(m) => m@,
        AppError::Configuration(m) => m@,
        AppError::Network(m) => m@,
        AppError::Ocr(m) => m@,
        AppError::Scanner(m) => m@,
        AppError::Serialization(m) => m@,
        AppError::Internal(m) => m@,
        AppError::BusinessLogic(m) => m@,
        AppError::ExternalService(m) => m@,
    }
}

/// How to react to an error.
#[derive(Debug, Clone, Copy, PartialEq, Eq)]
pub enum RecoveryStrategy {
    Retry,
    /// Retry after the given number of seconds.
    RetryWithDelay(u64),
    Fallback,
    UserIntervention,
    Ignore,
}

/// The advice for each error kind.
pub open spec fn recovery_spec(e: AppError) -> RecoveryStrategy {
    match e {
        AppError::Network(_) => RecoveryStrategy::RetryWithDelay(2),
        AppError::Database(_) => RecoveryStrategy::RetryWithDelay(1),
        AppError::FileSystem(_) => RecoveryStrategy::Retry,
        AppError::ExternalService(_) => RecoveryStrategy::RetryWithDelay(5),
        _ => RecoveryStrategy::UserIntervention,
    }
}

/// Retrying or falling back may help.
pub open spec fn recoverable_spec(s: RecoveryStrategy) -> bool {
    match s {
        RecoveryStrategy::Retry | RecoveryStrategy::RetryWithDelay(_) | RecoveryStrategy::Fallback => true,
        _ => false,
    }
}

impl AppError {
    /// A copy of this error.
    pub fn duplicate(&self) -> (r: AppError)
        ensures
            r == *self,
    {
        match self {
            AppError::Authentication(m) => AppError::Authentication(m.clone()),
            AppError::Alert(m) => AppError::Alert(m.clone()),
            AppError::Database(m) => AppError::Database(m.clone()),
            AppError::Service(m) => AppError::Service(m.clone()),
            AppError::FileSystem(m) => AppError::FileSystem(m.clone()),
            AppError::Validation(m) => AppError::Validation(m.clone()),
            AppError::Configuration(m) => AppError::Configuration(m.clone()),
            AppError::Network(m) => AppError::Network(m.clone()),
            AppError::Ocr(m) => AppError::Ocr(m.clone()),
            AppError::Scanner(m) => AppError::Scanner(m.clone()),
            AppError::Serialization(m) => AppError::Serialization(m.clone()),
            AppError::Internal(m) => AppError::Internal(m.clone()),
            AppError::BusinessLogic(m) => AppError::BusinessLogic(m.clone()),
            AppError::ExternalService(m) => AppError::ExternalService(m.clone()),
        }
    }

    /// The displayed text: the kind's prefix followed by the message.
    pub fn message(&self) -> (r: String)
        ensures
            r@ == app_error_prefix(*self) + app_error_detail(*self),
    {
        let (prefix, detail) = match self {
            AppError::Authentication(m) => ("Authentication error: ", m),
            AppError::Alert(m) => ("Alert error: ", m),
            AppError::Database(m) => ("Database error: ", m),
            AppError::Service(m) => ("Service error: ", m),
            AppError::FileSystem(m) => ("File system error: ", m),
            AppError::Validation(m) => ("Validation error: ", m),
            AppError::Configuration(m) => ("Configuration error: ", m),
            AppError::Network(m) => ("Network error: ", m),
            AppError::Ocr(m) => ("OCR error: ", m),
            AppError::Scanner(m) => ("Scanner error: ", m),
            AppError::Serialization(m) => ("Serialization error: ", m),
            AppError::Internal(m) => ("Internal error: ", m),
            AppError::BusinessLogic(m) => ("Business logic error: ", m),
            AppError::ExternalService(m) => ("External service error: ", m),
        };
        let mut s = owned(prefix);
        s.append(detail.as_str());
        s
    }

    /// The recommended recovery strategy for this error.
    pub fn recovery_strategy(&self) -> (r: RecoveryStrategy)
        ensures
            r == recovery_spec(*self),
    {
        match self {
            AppError::Network(_) => RecoveryStrategy::RetryWithDelay(2),
            AppError::Database(_) => RecoveryStrategy::RetryWithDelay(1),
            AppError::Authentication(_) => RecoveryStrategy::UserIntervention,
            AppError::Validation(_) => RecoveryStrategy::UserIntervention,
            AppError::Configuration(_) => RecoveryStrategy::UserIntervention,
            AppError::FileSystem(_) => RecoveryStrategy::Retry,
            AppError::ExternalService(_) => RecoveryStrategy::RetryWithDelay(5),
            _ => RecoveryStrategy::UserIntervention,
        }
    }

    /// Whether retrying or falling back may help.
    pub fn is_recoverable(&self) -> (b: bool)
        ensures
            b == recoverable_spec(recovery_spec(*self)),
    {
        match self.recovery_strategy() {
            RecoveryStrategy::Retry | RecoveryStrategy::RetryWithDelay(_) | RecoveryStrategy::Fallback => true,
            _ => false,
        }
    }
}

/// Where and for whom an error happened.
#[derive(Debug)]
pub struct ErrorContext {
    pub operation: String,
    pub user_id: Option<String>,
    pub request_id: Option<String>,
    pub additional_info: Option<String>,
}

/// Copy of an optional string.
fn copy_opt(o: &Option<String>) -> (r: Option<String>)
    ensures
        r == *o,
{
    match o {
        Some(s) => Some(s.clone()),
        None => None,
    }
}

impl ErrorContext {
    /// A context for `operation`, with nothing else known.
    pub fn new(operation: &str) -> (r: Self)
        ensures
            r.operation@ == operation@,
            r.user_id is None,
            r.request_id is None,
            r.additional_info is None,
    {
        ErrorContext { operation: owned(operation), user_id: None, request_id: None, additional_info: None }
    }

    /// The same context, naming the user.
    pub fn with_user(self, user_id: &str) -> (r: Self)
        ensures
            r.operation == self.operation,
            r.user_id matches Some(u) && u@ == user_id@,
            r.request_id == self.request_id,
            r.additional_info == self.additional_info,
    {
        let mut s = self;
        s.user_id = Some(owned(user_id));
        s
    }

    /// The same context, naming the request.
    pub fn with_request_id(self, request_id: &str) -> (r: Self)
        ensures
            r.operation == self.operation,
            r.user_id == self.user_id,
            r.request_id matches Some(q) && q@ == request_id@,
            r.additional_info == self.additional_info,
    {
        let mut s = self;
        s.request_id = Some(owned(request_id));
        s
    }

    /// The same context, with extra information.
    pub fn with_info(self, info: &str) -> (r: Self)
        ensures
            r.operation == self.operation,
            r.user_id == self.user_id,
            r.request_id == self.request_id,
            r.additional_info matches Some(i) && i@ == info@,
    {
        let mut s = self;
        s.additional_info = Some(owned(info));
        s
    }

    /// A copy of this context.
    pub fn duplicate(&self) -> (r: Self)
        ensures
            r == *self,
    {
        ErrorContext {
            operation: self.operation.clone(),
            user_id: copy_opt(&self.user_id),
            request_id: copy_opt(&self.request_id),
            additional_info: copy_opt(&self.additional_info),
        }
    }
}

/// An error with its context and the time (Unix seconds) it was recorded.
#[derive(Debug)]
pub struct ContextualError {
    pub error: AppError,
    pub context: ErrorContext,
    pub timestamp: i64,
}

/// Calls `chrono::Utc::now().timestamp()`: the current Unix time in seconds.
/// The reading is the machine's clock, so nothing is claimed of it.
#[verifier::external_body]
pub(crate) fn now_unix_seconds() -> i64 {
    chrono::Utc::now().timestamp()
}

/// What the user is shown for each kind of error.
pub open spec fn user_message_spec(e: AppError) -> Seq<char> {
    match e {
        AppError::Authentication(_) => "Authentication failed. Please check your credentials and try again."@,
        AppError::Database(_) => "A database error occurred. Please try again later."@,
        AppError::Validation(m) => "Validation failed: "@ + m@,
        AppError::Network(_) => "Network error. Please check your connection and try again."@,
        AppError::FileSystem(_) => "File operation failed. Please check permissions and try again."@,
        AppError::Configuration(_) => "Configuration error. Please contact support."@,
        AppError::Ocr(_) => "OCR processing failed. Please try with a clearer image."@,
        AppError::Scanner(_) => "Scanner error. Please check camera permissions and try again."@,
        AppError::BusinessLogic(m) => m@,
        AppError::ExternalService(_) => "External service unavailable. Please try again later."@,
        _ => "An unexpected error occurred. Please try again."@,
    }
}

impl ContextualError {
    /// An error in a context, stamped with the current time.
    pub fn new(error: AppError, context: ErrorContext) -> (r: Self)
        ensures
            r.error == error,
            r.context == context,
    {
        ContextualError { error, context, timestamp: now_unix_seconds() }
    }

    /// A copy of this error.
    pub fn duplicate(&self) -> (r: Self)
        ensures
            r == *self,
    {
        ContextualError {
            error: self.error.duplicate(),
            context: self.context.duplicate(),
            timestamp: self.timestamp,
        }
    }

    /// User-friendly text for the error.
    pub fn user_message(&self) -> (r: String)
        ensures
            r@ == user_message_spec(self.error),
    {
        match &self.error {
            AppError::Authentication(_) => owned(
                "Authentication failed. Please check your credentials and try again.",
            ),
            AppError::Database(_) => owned("A database error occurred. Please try again later."),
            AppError::Validation(msg) => {
                let mut s = owned("Validation failed: ");
                s.append(msg.as_str());
                s
            },
            AppError::Network(_) => owned("Network error. Please check your connection and try again."),
            AppError::FileSystem(_) => owned(
                "File operation failed. Please check permissions and try again.",
            ),
            AppError::Configuration(_) => owned("Configuration error. Please contact support."),
            AppError::Ocr(_) => owned("OCR processing failed. Please try with a clearer image."),
            AppError::Scanner(_) => owned(
                "Scanner error. Please check camera permissions and try again.",
            ),
            AppError::BusinessLogic(msg) => msg.clone(),
            AppError::ExternalService(_) => owned("External service unavailable. Please try again later."),
            _ => owned("An unexpected error occurred. Please try again."),
        }
    }

    /// The displayed text: the error, then ` (in <operation>)`.
    pub fn message(&self) -> (r: String)
        ensures
            r@ == app_error_prefix(self.error) + app_error_detail(self.error) + " (in "@
                + self.context.operation@ + ")"@,
    {
        let mut s = self.error.message();
        s.append(" (in ");
        s.append(self.context.operation.as_str());
        s.append(")");
        s
    }
}

/// The error history keeps at most this many entries.
pub const MAX_ERROR_HISTORY: usize = 50;

/// The current error and a bounded history of past errors.
pub struct ErrorHandler {
    current_error: Option<ContextualError>,
    error_history: Vec<ContextualError>,
    max_history_size: usize,
}

/// History after recording `e`: appended, and the oldest entry dropped when
/// the bound is exceeded.
pub open spec fn history_after(h: Seq<ContextualError>, e: ContextualError, max: nat) -> Seq<
    ContextualError,
> {
    if h.len() + 1 > max {
        h.push(e).drop_first()
    } else {
        h.push(e)
    }
}

impl ErrorHandler {
    /// The handler's invariant: the history never exceeds its bound.
    pub open spec fn wf(&self) -> bool {
        &&& self.history().len() <= self.max_history()
        &&& self.max_history() == MAX_ERROR_HISTORY
    }

    /// The recorded history, oldest first.
    pub closed spec fn history(&self) -> Seq<ContextualError> {
        self.error_history@
    }

    /// The current error.
    pub closed spec fn current(&self) -> Option<ContextualError> {
        self.current_error
    }

    /// The history bound.
    pub closed spec fn max_history(&self) -> nat {
        self.max_history_size as nat
    }

    /// An empty handler.
    pub fn new() -> (r: Self)
        ensures
            r.wf(),
            r.history().len() == 0,
            r.current() is None,
            r.max_history() == MAX_ERROR_HISTORY,
    {
        ErrorHandler { current_error: None, error_history: Vec::new(), max_history_size: MAX_ERROR_HISTORY }
    }

    /// Record an error: it becomes the current one and joins the history.
    pub fn handle_error(&mut self, error: ContextualError)
        requires
            old(self).wf(),
        ensures
            final(self).wf(),
            final(self).current() == Some(error),
            final(self).max_history() == old(self).max_history(),
            final(self).history() == history_after(old(self).history(), error, old(self).max_history()),
    {
        self.error_history.push(error.duplicate());
        if self.error_history.len() > self.max_history_size {
            self.error_history.remove(0);
        }
        self.current_error = Some(error);
    }

    /// The current error.
    pub fn current_error(&self) -> (r: Option<&ContextualError>)
        ensures
            r matches Some(e) ==> self.current() == Some(*e),
            r is None ==> self.current() is None,
    {
        match &self.current_error {
            Some(e) => Some(e),
            None => None,
        }
    }

    /// User-friendly text for the current error.
    pub fn current_error_message(&self) -> (r: Option<String>)
        ensures
            r matches Some(m) ==> self.current() matches Some(e) && m@ == user_message_spec(e.error),
            r is None ==> self.current() is None,
    {
        match &self.current_error {
            Some(e) => Some(e.user_message()),
            None => None,
        }
    }

    /// Forget the current error (the history stays).
    pub fn clear_current_error(&mut self)
        requires
            old(self).wf(),
        ensures
            final(self).wf(),
            final(self).current() is None,
            final(self).history() == old(self).history(),
            final(self).max_history() == old(self).max_history(),
    {
        self.current_error = None;
    }

    /// The recorded history, oldest first.
    pub fn error_history(&self) -> (r: &[ContextualError])
        ensures
            r@ == self.history(),
    {
        self.error_history.as_slice()
    }

    /// Whether an error is current.
    pub fn has_error(&self) -> (b: bool)
        ensures
            b == self.current() is Some,
    {
        self.current_error.is_some()
    }
}

/// Recording errors keeps the history within its bound and keeps the newest
/// entries in order: after any number of `handle_error` calls the history
/// is the last (at most 50) errors recorded.
pub proof fn law_history_bounded(h: Seq<ContextualError>, e: ContextualError, max: nat)
    requires
        h.len() <= max,
        max > 0,
    ensures
        history_after(h, e, max).len() <= max,
        history_after(h, e, max).last() == e,
        history_after(h, e, max).len() == if h.len() == max { max } else { h.len() + 1 },
        forall|i: int|
            0 <= i < history_after(h, e, max).len() - 1 ==> #[trigger] history_after(h, e, max)[i]
                == h[i + (h.len() + 1 - history_after(h, e, max).len())],
{
}

} // verus!
