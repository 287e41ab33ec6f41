//! Admitting tasks to per-priority queues: a task is taken when resources
//! allow, a handler is registered for its kind, and (with back-pressure)
//! its queue has room. The handlers themselves are the caller's: here only
//! which kinds have one is kept. CPU figures are in tenths of a percent.
use vstd::prelude::*;
use crate::async_ops::operations::{AsyncOperation, OperationPriority, OperationType};
use crate::text::owned;

verus! {

broadcast use vstd::string::group_string_axioms;

/// Executor settings.
#[derive(Debug, Clone)]
pub struct ExecutorConfig {
    pub max_workers_per_priority: usize,
    pub task_timeout_seconds: u64,
    pub enable_backpressure: bool,
    pub queue_size_limit: usize,
    pub retry_delay_seconds: u64,
    pub health_check_interval_seconds: u64,
}

impl Default for ExecutorConfig {
    fn default() -> (r: Self)
        ensures
            r.max_workers_per_priority == 4,
            r.task_timeout_seconds == 300,
            r.enable_backpressure,
            r.queue_size_limit == 1000,
            r.retry_delay_seconds == 5,
            r.health_check_interval_seconds == 30,
    {
        ExecutorConfig {
            max_workers_per_priority: 4,
            task_timeout_seconds: 300,
            enable_backpressure: true,
            queue_size_limit: 1000,
            retry_delay_seconds: 5,
            health_check_interval_seconds: 30,
        }
    }
}

/// The queue a task goes to.
#[derive(Debug, Clone, Copy, PartialEq, Eq, Structural, Hash)]
pub enum TaskPriority {
    Critical,
    High,
    Normal,
    Low,
}

/// The queue of a task's priority.
pub open spec fn queue_of(p: OperationPriority) -> TaskPriority {
    match p {
        OperationPriority::Critical => TaskPriority::Critical,
        OperationPriority::High => TaskPriority::High,
        OperationPriority::Normal => TaskPriority::Normal,
        OperationPriority::Low => TaskPriority::Low,
    }
}

/// The position of a queue: Critical, High, Normal, Low.
pub open spec fn queue_index(t: TaskPriority) -> int {
    match t {
        TaskPriority::Critical => 0,
        TaskPriority::High => 1,
        TaskPriority::Normal => 2,
        TaskPriority::Low => 3,
    }
}

/// Resource limits; CPU in tenths of a percent, bandwidths in megabits and
/// megabytes per second.
#[derive(Debug, Clone)]
pub struct ResourceLimits {
    pub max_memory_mb: usize,
    pub max_cpu_permille: u32,
    pub max_network_bandwidth_mbps: u32,
    pub max_disk_io_mbps: u32,
}

impl Default for ResourceLimits {
    fn default() -> (r: Self)
        ensures
            r.max_memory_mb == 1024,
            r.max_cpu_permille == 800,
            r.max_network_bandwidth_mbps == 100,
            r.max_disk_io_mbps == 50,
    {
        ResourceLimits { max_memory_mb: 1024, max_cpu_permille: 800, max_network_bandwidth_mbps: 100, max_disk_io_mbps: 50 }
    }
}

/// Executor counters: queue lengths by queue position, and use in the
/// units of the limits.
#[derive(Debug, Clone)]
pub struct ExecutionStats {
    pub total_tasks_executed: u64,
    pub current_memory_usage_mb: usize,
    pub current_cpu_usage_permille: u32,
    pub queue_sizes: Vec<usize>,
    pub worker_utilization_permille: Vec<u32>,
}

/// The name of a task kind, as `Debug` writes it.
pub open spec fn kind_label(t: OperationType) -> Seq<char> {
    match t {
        OperationType::DataSync => "DataSync"@,
        OperationType::DataBackup => "DataBackup"@,
        OperationType::DataImport => "DataImport"@,
        OperationType::DataExport => "DataExport"@,
        OperationType::PriceMonitoring => "PriceMonitoring"@,
        OperationType::PriceAnalysis => "PriceAnalysis"@,
        OperationType::PriceComparison => "PriceComparison"@,
        OperationType::PriceHistoryUpdate => "PriceHistoryUpdate"@,
        OperationType::ProductSearch => "ProductSearch"@,
        OperationType::StoreSearch => "StoreSearch"@,
        OperationType::AdvancedSearch => "AdvancedSearch"@,
        OperationType::IndexBuilding => "IndexBuilding"@,
        OperationType::CameraCapture => "CameraCapture"@,
        OperationType::BarcodeScanning => "BarcodeScanning"@,
        OperationType::ImageProcessing => "ImageProcessing"@,
        OperationType::OCRProcessing => "OCRProcessing"@,
        OperationType::ApiRequest => "ApiRequest"@,
        OperationType::FileDownload => "FileDownload"@,
        OperationType::FileUpload => "FileUpload"@,
        OperationType::CloudSync => "CloudSync"@,
        OperationType::DatabaseQuery => "DatabaseQuery"@,
        OperationType::DatabaseUpdate => "DatabaseUpdate"@,
        OperationType::DatabaseMigration => "DatabaseMigration"@,
        OperationType::DatabaseOptimization => "DatabaseOptimization"@,
        OperationType::NotificationSend => "NotificationSend"@,
        OperationType::AlertProcessing => "AlertProcessing"@,
        OperationType::EmailSend => "EmailSend"@,
        OperationType::PushNotification => "PushNotification"@,
    }
}

/// The name of a task kind.
pub fn operation_type_name(t: OperationType) -> (s: &'static str)
    ensures
        s@ == kind_label(t),
{
    match t {
        OperationType::DataSync => "DataSync",
        OperationType::DataBackup => "DataBackup",
        OperationType::DataImport => "DataImport",
        OperationType::DataExport => "DataExport",
        OperationType::PriceMonitoring => "PriceMonitoring",
        OperationType::PriceAnalysis => "PriceAnalysis",
        OperationType::PriceComparison => "PriceComparison",
        OperationType::PriceHistoryUpdate => "PriceHistoryUpdate",
        OperationType::ProductSearch => "ProductSearch",
        OperationType::StoreSearch => "StoreSearch",
        OperationType::AdvancedSearch => "AdvancedSearch",
        OperationType::IndexBuilding => "IndexBuilding",
        OperationType::CameraCapture => "CameraCapture",
        OperationType::BarcodeScanning => "BarcodeScanning",
        OperationType::ImageProcessing => "ImageProcessing",
        OperationType::OCRProcessing => "OCRProcessing",
        OperationType::ApiRequest => "ApiRequest",
        OperationType::FileDownload => "FileDownload",
        OperationType::FileUpload => "FileUpload",
        OperationType::CloudSync => "CloudSync",
        OperationType::DatabaseQuery => "DatabaseQuery",
        OperationType::DatabaseUpdate => "DatabaseUpdate",
        OperationType::DatabaseMigration => "DatabaseMigration",
        OperationType::DatabaseOptimization => "DatabaseOptimization",
        OperationType::NotificationSend => "NotificationSend",
        OperationType::AlertProcessing => "AlertProcessing",
        OperationType::EmailSend => "EmailSend",
        OperationType::PushNotification => "PushNotification",
    }
}

/// The kinds with a handler from the start.
pub open spec fn default_handler_types() -> Seq<OperationType> {
    seq![
        OperationType::DataSync,
        OperationType::PriceMonitoring,
        OperationType::ProductSearch,
        OperationType::DatabaseQuery,
        OperationType::ApiRequest,
    ]
}

/// Per-priority task queues and the kinds that have a handler.
pub struct AsyncExecutor {
    config: ExecutorConfig,
    queues: Vec<Vec<AsyncOperation>>,
    handler_types: Vec<OperationType>,
    resource_limits: ResourceLimits,
    stats: ExecutionStats,
}

impl AsyncExecutor {
    /// The settings.
    pub closed spec fn config_spec(&self) -> ExecutorConfig {
        self.config
    }

    /// The limits.
    pub closed spec fn limits_spec(&self) -> ResourceLimits {
        self.resource_limits
    }

    /// The kinds with a handler.
    pub closed spec fn handlers(&self) -> Seq<OperationType> {
        self.handler_types@
    }

    /// The ids queued at a priority, in order.
    pub closed spec fn queued(&self, t: TaskPriority) -> Seq<Seq<char>> {
        self.queues@[queue_index(t)]@.map_values(|o: AsyncOperation| o.id@)
    }

    /// The counters.
    pub closed spec fn stats_spec(&self) -> ExecutionStats {
        self.stats
    }

    /// Four queues, and counters for each.
    pub closed spec fn wf(&self) -> bool {
        &&& self.queues@.len() == 4
        &&& self.stats.queue_sizes@.len() == 4
    }

    /// Whether use is under the limits.
    pub open spec fn resources_ok(&self) -> bool {
        self.stats_spec().current_memory_usage_mb < self.limits_spec().max_memory_mb
            && self.stats_spec().current_cpu_usage_permille < self.limits_spec().max_cpu_permille
    }

    /// Empty queues, the default limits, and the default kinds handled.
    pub fn new(config: ExecutorConfig) -> (r: Self)
        ensures
            r.wf(),
            r.config_spec() == config,
            r.handlers() == default_handler_types(),
            forall|t: TaskPriority| #[trigger] r.queued(t).len() == 0,
            r.limits_spec().max_memory_mb == 1024,
            r.limits_spec().max_cpu_permille == 800,
            r.stats_spec().current_memory_usage_mb == 0,
            r.stats_spec().current_cpu_usage_permille == 0,
    {
        let mut queues: Vec<Vec<AsyncOperation>> = Vec::new();
        let mut sizes: Vec<usize> = Vec::new();
        let mut util: Vec<u32> = Vec::new();
        let mut i: usize = 0;
        while i < 4
            invariant
                i <= 4,
                queues@.len() == i,
                sizes@.len() == i,
                util@.len() == i,
                forall|k: int| 0 <= k < i ==> (#[trigger] queues@[k])@.len() == 0,
            decreases 4 - i,
        {
            queues.push(Vec::new());
            sizes.push(0);
            util.push(0);
            i = i + 1;
        }
        let mut handlers: Vec<OperationType> = Vec::new();
        handlers.push(OperationType::DataSync);
        handlers.push(OperationType::PriceMonitoring);
        handlers.push(OperationType::ProductSearch);
        handlers.push(OperationType::DatabaseQuery);
        handlers.push(OperationType::ApiRequest);
        let r = AsyncExecutor {
            config,
            queues,
            handler_types: handlers,
            resource_limits: ResourceLimits::default(),
            stats: ExecutionStats {
                total_tasks_executed: 0,
                current_memory_usage_mb: 0,
                current_cpu_usage_permille: 0,
                queue_sizes: sizes,
                worker_utilization_permille: util,
            },
        };
        assert(r.handlers() =~= default_handler_types());
        assert forall|t: TaskPriority| #[trigger] r.queued(t).len() == 0 by {
            assert(r.queues@[queue_index(t)]@.len() == 0);
        }
        r
    }

    /// Give a kind a handler (the handler itself is the caller's).
    pub fn register_handler(&mut self, operation_type: OperationType)
        requires
            old(self).wf(),
        ensures
            final(self).wf(),
            final(self).handlers() == (if old(self).handlers().contains(operation_type) {
                old(self).handlers()
            } else {
                old(self).handlers().push(operation_type)
            }),
            forall|t: TaskPriority| #[trigger] final(self).queued(t) == old(self).queued(t),
    {
        if self.has_handler(operation_type) {
            return;
        }
        self.handler_types.push(operation_type);
    }

    /// Whether a kind has a handler.
    fn has_handler(&self, t: OperationType) -> (b: bool)
        ensures
            b == self.handlers().contains(t),
    {
        let mut i: usize = 0;
        while i < self.handler_types.len()
            invariant
                i <= self.handler_types@.len(),
                forall|k: int| 0 <= k < i ==> self.handler_types@[k] != t,
            decreases self.handler_types.len() - i,
        {
            if self.handler_types[i] == t {
                assert(self.handlers()[i as int] == t);
                return true;
            }
            i = i + 1;
        }
        false
    }

    /// Queue a task: refused when resources are short, when no handler is
    /// registered for its kind, or (with back-pressure) when its queue is
    /// full.
    pub fn execute(&mut self, operation: AsyncOperation) -> (r: Result<(), String>)
        requires
            old(self).wf(),
        ensures
            final(self).wf(),
            final(self).handlers() == old(self).handlers(),
            !old(self).resources_ok() ==> (r matches Err(m) && m@ == "Resource limits exceeded"@),
            old(self).resources_ok() && !old(self).handlers().contains(operation.operation_type) ==> (r matches Err(m)
                && m@ == "No handler registered for operation type: "@ + kind_label(operation.operation_type)),
            ({
                let q = queue_of(operation.priority);
                old(self).resources_ok() && old(self).handlers().contains(operation.operation_type) ==> if old(
                    self,
                ).config_spec().enable_backpressure && old(self).queued(q).len() >= old(
                    self,
                ).config_spec().queue_size_limit {
                    r matches Err(m) && m@ == "Task queue is full"@
                } else {
                    &&& r is Ok
                    &&& final(self).queued(q) == old(self).queued(q).push(operation.id@)
                    &&& forall|t: TaskPriority| t != q ==> #[trigger] final(self).queued(t) == old(self).queued(t)
                    &&& final(self).stats_spec().queue_sizes@[queue_index(q)] == final(self).queued(q).len()
                }
            }),
            r is Err ==> forall|t: TaskPriority| #[trigger] final(self).queued(t) == old(self).queued(t),
    {
        if !(self.stats.current_memory_usage_mb < self.resource_limits.max_memory_mb
            && self.stats.current_cpu_usage_permille < self.resource_limits.max_cpu_permille) {
            return Err(owned("Resource limits exceeded"));
        }
        if !self.has_handler(operation.operation_type) {
            let mut m = owned("No handler registered for operation type: ");
            m.append(operation_type_name(operation.operation_type));
            return Err(m);
        }
        let idx: usize = match operation.priority {
            OperationPriority::Critical => 0,
            OperationPriority::High => 1,
            OperationPriority::Normal => 2,
            OperationPriority::Low => 3,
        };
        let ghost q = queue_of(operation.priority);
        assert(idx == queue_index(q));
        let len = self.queues[idx].len();
        if self.config.enable_backpressure && len >= self.config.queue_size_limit {
            return Err(owned("Task queue is full"));
        }
        let ghost before = self.queues@;
        let ghost oid = operation.id@;
        let mut qv = self.queues.remove(idx);
        qv.push(operation);
        self.queues.insert(idx, qv);
        assert(self.queues@[idx as int]@.map_values(|o: AsyncOperation| o.id@) =~= before[idx as int]@.map_values(
            |o: AsyncOperation| o.id@,
        ).push(oid));
        assert forall|t: TaskPriority| t != q implies #[trigger] self.queued(t) == old(self).queued(t) by {
            assert(queue_index(t) != idx);
            assert(self.queues@[queue_index(t)] == before[queue_index(t)]);
        }
        let new_len = self.queues[idx].len();
        self.stats.queue_sizes.set(idx, new_len);
        Ok(())
    }

    /// Queue several tasks in order; each one's outcome.
    pub fn execute_batch(&mut self, operations: Vec<AsyncOperation>) -> (r: Result<Vec<Result<(), String>>, String>)
        requires
            old(self).wf(),
        ensures
            final(self).wf(),
            r matches Ok(v) && v@.len() == operations@.len(),
    {
        let mut ops = operations;
        let n = ops.len();
        let mut results: Vec<Result<(), String>> = Vec::new();
        while ops.len() > 0
            invariant
                self.wf(),
                results@.len() + ops@.len() == n,
            decreases ops.len(),
        {
            let op = ops.remove(0);
            results.push(self.execute(op));
        }
        Ok(results)
    }

    /// The counters with the queue lengths; no worker runs here, so the
    /// use of each queue's workers is 0.
    pub fn get_stats(&self) -> (r: ExecutionStats)
        requires
            self.wf(),
        ensures
            r.total_tasks_executed == self.stats_spec().total_tasks_executed,
            r.queue_sizes@.len() == 4,
            forall|t: TaskPriority| r.queue_sizes@[queue_index(t)] == #[trigger] self.queued(t).len(),
            r.worker_utilization_permille@ == seq![0u32, 0u32, 0u32, 0u32],
    {
        let mut sizes: Vec<usize> = Vec::new();
        let mut i: usize = 0;
        while i < 4
            invariant
                self.wf(),
                i <= 4,
                sizes@.len() == i,
                forall|k: int| 0 <= k < i ==> sizes@[k] == self.queues@[k]@.len(),
            decreases 4 - i,
        {
            sizes.push(self.queues[i].len());
            i = i + 1;
        }
        let mut util: Vec<u32> = Vec::new();
        util.push(0);
        util.push(0);
        util.push(0);
        util.push(0);
        assert(util@ =~= seq![0u32, 0u32, 0u32, 0u32]);
        ExecutionStats {
            total_tasks_executed: self.stats.total_tasks_executed,
            current_memory_usage_mb: self.stats.current_memory_usage_mb,
            current_cpu_usage_permille: self.stats.current_cpu_usage_permille,
            queue_sizes: sizes,
            worker_utilization_permille: util,
        }
    }

    /// How many tasks wait in all queues.
    pub fn pending_tasks(&self) -> (n: u128)
        requires
            self.wf(),
        ensures
            n == self.queued(TaskPriority::Critical).len() + self.queued(TaskPriority::High).len() + self.queued(
                TaskPriority::Normal,
            ).len() + self.queued(TaskPriority::Low).len(),
    {
        let a = self.queues[0].len() as u128;
        let b = self.queues[1].len() as u128;
        let c = self.queues[2].len() as u128;
        let d = self.queues[3].len() as u128;
        a + b + c + d
    }
}

/// Builds an executor from settings and limits.
pub struct ExecutorBuilder {
    pub config: ExecutorConfig,
    pub resource_limits: ResourceLimits,
}

impl ExecutorBuilder {
    /// The default settings and limits.
    pub fn new() -> (r: Self)
        ensures
            r.config.max_workers_per_priority == 4,
            r.config.queue_size_limit == 1000,
            r.config.enable_backpressure,
            r.resource_limits.max_memory_mb == 1024,
            r.resource_limits.max_cpu_permille == 800,
    {
        ExecutorBuilder { config: ExecutorConfig::default(), resource_limits: ResourceLimits::default() }
    }

    /// Set the workers per queue.
    pub fn max_workers(self, workers: usize) -> (r: Self)
        ensures
            r.config == (ExecutorConfig { max_workers_per_priority: workers, ..self.config }),
            r.resource_limits == self.resource_limits,
    {
        ExecutorBuilder { config: ExecutorConfig { max_workers_per_priority: workers, ..self.config }, ..self }
    }

    /// Set the time limit per task.
    pub fn task_timeout(self, timeout_seconds: u64) -> (r: Self)
        ensures
            r.config == (ExecutorConfig { task_timeout_seconds: timeout_seconds, ..self.config }),
            r.resource_limits == self.resource_limits,
    {
        ExecutorBuilder { config: ExecutorConfig { task_timeout_seconds: timeout_seconds, ..self.config }, ..self }
    }

    /// Turn back-pressure on or off.
    pub fn enable_backpressure(self, enabled: bool) -> (r: Self)
        ensures
            r.config == (ExecutorConfig { enable_backpressure: enabled, ..self.config }),
            r.resource_limits == self.resource_limits,
    {
        ExecutorBuilder { config: ExecutorConfig { enable_backpressure: enabled, ..self.config }, ..self }
    }

    /// Set the queue length limit.
    pub fn queue_size_limit(self, limit: usize) -> (r: Self)
        ensures
            r.config == (ExecutorConfig { queue_size_limit: limit, ..self.config }),
            r.resource_limits == self.resource_limits,
    {
        ExecutorBuilder { config: ExecutorConfig { queue_size_limit: limit, ..self.config }, ..self }
    }

    /// Set the memory limit in megabytes.
    pub fn memory_limit(self, memory_mb: usize) -> (r: Self)
        ensures
            r.resource_limits == (ResourceLimits { max_memory_mb: memory_mb, ..self.resource_limits }),
            r.config == self.config,
    {
        ExecutorBuilder { resource_limits: ResourceLimits { max_memory_mb: memory_mb, ..self.resource_limits }, ..self }
    }

    /// Set the CPU limit in tenths of a percent.
    pub fn cpu_limit(self, cpu_permille: u32) -> (r: Self)
        ensures
            r.resource_limits == (ResourceLimits { max_cpu_permille: cpu_permille, ..self.resource_limits }),
            r.config == self.config,
    {
        ExecutorBuilder { resource_limits: ResourceLimits { max_cpu_permille: cpu_permille, ..self.resource_limits }, ..self }
    }

    /// The executor.
    pub fn build(self) -> (r: AsyncExecutor)
        ensures
            r.wf(),
            r.config_spec() == self.config,
            r.limits_spec() == self.resource_limits,
            r.handlers() == default_handler_types(),
    {
        let mut e = AsyncExecutor::new(self.config);
        e.resource_limits = self.resource_limits;
        e
    }
}

impl Default for ExecutorBuilder {
    fn default() -> (r: Self)
        ensures
            r.config.queue_size_limit == 1000,
    {
        Self::new()
    }
}

} // verus!
