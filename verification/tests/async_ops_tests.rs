use eprice::async_ops::executor::{operation_type_name, AsyncExecutor, ExecutorBuilder, ExecutorConfig};
use eprice::async_ops::manager::{AsyncManager, OperationStatus, StatusChange};
use eprice::async_ops::operations::{
    AsyncOperation, OperationData, OperationError, OperationFactory, OperationPriority, OperationResult, OperationType,
};
use eprice::async_ops::progress::{ProgressTracker, ProgressTrackerBuilder, ProgressUtils};

fn seen(changes: &[StatusChange]) -> Vec<(String, OperationStatus)> {
    changes.iter().map(|c| (c.operation_id.clone(), c.status)).collect()
}

#[test]
fn submitted_task_starts_running() {
    let mut m = AsyncManager::new();
    let op = AsyncOperation::data_sync("sync".to_string());
    let id = op.id.clone();
    let (h, changes) = m.submit_operation(op);
    assert_eq!(h.id, id);
    assert_eq!(
        seen(&changes),
        vec![(id.clone(), OperationStatus::Pending), (id.clone(), OperationStatus::Running)]
    );
    assert_eq!(m.get_operation_status(&id), Some(OperationStatus::Running));
    assert!(h.is_running(&m));
    assert_eq!(m.get_running_operations().len(), 1);
    assert_eq!(m.get_statistics().total_operations, 1);
    assert_eq!(m.get_operation_status("missing"), None);
}

#[test]
fn queue_respects_concurrency_limit() {
    let mut m = AsyncManager::new().configure(1, 24, true, 300);
    let a = AsyncOperation::data_sync("a".to_string());
    let b = AsyncOperation::price_monitoring("b".to_string());
    let (ida, idb) = (a.id.clone(), b.id.clone());
    m.submit_operation(a);
    let (_, changes) = m.submit_operation(b);
    assert_eq!(seen(&changes), vec![(idb.clone(), OperationStatus::Pending)]);
    assert_eq!(m.get_operation_status(&idb), Some(OperationStatus::Pending));
    assert_eq!(m.get_statistics().current_queue_size, 1);
    let changes = m.complete_operation_at(&ida, OperationResult::Success(OperationData::Count(3)), 100);
    assert_eq!(
        seen(&changes),
        vec![(ida.clone(), OperationStatus::Completed), (idb.clone(), OperationStatus::Running)]
    );
    assert_eq!(m.get_operation_status(&ida), Some(OperationStatus::Completed));
    assert_eq!(m.get_operation_status(&idb), Some(OperationStatus::Running));
    match m.get_operation_result(&ida) {
        Some(OperationResult::Success(OperationData::Count(3))) => {}
        other => panic!("unexpected {:?}", other),
    }
    let st = m.get_statistics();
    assert_eq!(st.total_operations, 2);
    assert_eq!(st.success_rate, 0);
}

#[test]
fn dependent_task_waits_for_its_dependency() {
    let mut m = AsyncManager::new();
    let a = AsyncOperation::database_operation("first".to_string());
    let mut b = AsyncOperation::database_operation("second".to_string());
    let (ida, idb) = (a.id.clone(), b.id.clone());
    b.add_dependency(ida.clone());
    m.submit_operation(a);
    let (_, changes) = m.submit_operation(b);
    assert_eq!(seen(&changes), vec![(idb.clone(), OperationStatus::Pending)]);
    assert_eq!(m.get_operation_status(&idb), None);
    let changes = m.complete_operation_at(&ida, OperationResult::Success(OperationData::Empty), 5);
    assert_eq!(
        seen(&changes),
        vec![(ida.clone(), OperationStatus::Completed), (idb.clone(), OperationStatus::Running)]
    );
}

#[test]
fn failed_task_is_retried_while_retries_remain() {
    let mut m = AsyncManager::new();
    let op = AsyncOperation::search_operation("find".to_string()).with_retries(1);
    let id = op.id.clone();
    m.submit_operation(op);
    let changes = m.complete_operation_at(&id, OperationResult::Failure(OperationError::NetworkError("boom".to_string())), 10);
    assert_eq!(
        seen(&changes),
        vec![(id.clone(), OperationStatus::Pending), (id.clone(), OperationStatus::Running)]
    );
    let changes = m.complete_operation_at(&id, OperationResult::Failure(OperationError::NetworkError("boom".to_string())), 20);
    assert_eq!(seen(&changes), vec![(id.clone(), OperationStatus::Failed)]);
    assert_eq!(m.get_operation_status(&id), Some(OperationStatus::Failed));
}

#[test]
fn cancelling_tasks() {
    let mut m = AsyncManager::new().configure(1, 24, true, 300);
    let a = AsyncOperation::camera_capture("a".to_string());
    let b = AsyncOperation::camera_capture("b".to_string());
    let c = AsyncOperation::camera_capture("c".to_string()).non_cancellable();
    let (ida, idb, idc) = (a.id.clone(), b.id.clone(), c.id.clone());
    m.submit_operation(a);
    m.submit_operation(b);
    m.submit_operation(c);
    let (r, changes) = m.cancel_operation(&idb);
    assert!(r.is_ok());
    assert_eq!(seen(&changes), vec![(idb.clone(), OperationStatus::Cancelled)]);
    assert_eq!(m.get_operation_status(&idb), Some(OperationStatus::Cancelled));
    assert_eq!(m.cancel_operation(&idc).0, Err("Operation is not cancellable".to_string()));
    assert_eq!(m.cancel_operation("nope").0, Err("Operation not found".to_string()));
    let (r, _) = m.cancel_operation(&idb);
    assert_eq!(r, Err("Operation not found in queue or running operations".to_string()));
    let (r, _) = m.cancel_operation(&ida);
    assert!(r.is_ok());
}

#[test]
fn batch_submission_and_listing() {
    let mut m = AsyncManager::new();
    let ops = OperationFactory::create_data_sync_batch(vec!["x".to_string(), "y".to_string()]);
    assert_eq!(ops.len(), 2);
    let ids: Vec<String> = ops.iter().map(|o| o.id.clone()).collect();
    let (handles, _) = m.submit_batch(ops);
    let hids: Vec<String> = handles.iter().map(|h| h.id.clone()).collect();
    assert_eq!(hids, ids);
    assert_eq!(m.get_all_operations().len(), 2);
    assert_eq!(m.get_operations_by_type(&OperationType::DataSync).len(), 2);
    assert_eq!(m.get_operations_by_type(&OperationType::ApiRequest).len(), 0);
}

#[test]
fn operation_settings_and_timing() {
    let mut op = AsyncOperation::new(OperationType::ApiRequest, "call".to_string(), OperationPriority::High)
        .with_timeout(10);
    assert_eq!(op.max_retries, 3);
    assert!(op.cancellable);
    assert!(op.can_retry());
    assert_eq!(op.status_text(), "Pending");
    assert!(!op.is_timed_out_at(1_000));
    op.mark_started_at(100);
    assert_eq!(op.duration_seconds_at(130), Some(30));
    assert!(op.is_timed_out_at(111));
    assert!(!op.is_timed_out_at(110));
    op.mark_completed_at(150);
    assert_eq!(op.duration_seconds_at(999), Some(50));
    assert_eq!(op.status_text(), "Completed");
    assert!(op.dependencies_satisfied(&vec![]));
    op.add_dependency("d1".to_string());
    assert!(!op.dependencies_satisfied(&vec!["d2".to_string()]));
    assert!(op.dependencies_satisfied(&vec!["d2".to_string(), "d1".to_string()]));
}

#[test]
fn executor_queues_by_priority() {
    let mut e = AsyncExecutor::new(ExecutorConfig::default());
    let ok = AsyncOperation::new(OperationType::DataSync, "s".to_string(), OperationPriority::Critical);
    assert!(e.execute(ok).is_ok());
    let unhandled = AsyncOperation::new(OperationType::EmailSend, "e".to_string(), OperationPriority::Low);
    assert_eq!(
        e.execute(unhandled),
        Err("No handler registered for operation type: EmailSend".to_string())
    );
    e.register_handler(OperationType::EmailSend);
    let again = AsyncOperation::new(OperationType::EmailSend, "e".to_string(), OperationPriority::Low);
    assert!(e.execute(again).is_ok());
    assert_eq!(e.pending_tasks(), 2);
    let st = e.get_stats();
    assert_eq!(st.queue_sizes, vec![1, 0, 0, 1]);
    assert_eq!(st.worker_utilization_permille, vec![0, 0, 0, 0]);
    assert_eq!(operation_type_name(OperationType::OCRProcessing), "OCRProcessing");
}

#[test]
fn executor_back_pressure() {
    let mut e = ExecutorBuilder::new().queue_size_limit(1).max_workers(2).build();
    let a = AsyncOperation::new(OperationType::DataSync, "a".to_string(), OperationPriority::Normal);
    let b = AsyncOperation::new(OperationType::DataSync, "b".to_string(), OperationPriority::Normal);
    let c = AsyncOperation::new(OperationType::DataSync, "c".to_string(), OperationPriority::High);
    let r = e.execute_batch(vec![a, b, c]).unwrap();
    assert_eq!(r.len(), 3);
    assert!(r[0].is_ok());
    assert_eq!(r[1], Err("Task queue is full".to_string()));
    assert!(r[2].is_ok());
    let mut off = ExecutorBuilder::new().queue_size_limit(1).enable_backpressure(false).build();
    for _ in 0..3 {
        let op = AsyncOperation::new(OperationType::DataSync, "x".to_string(), OperationPriority::Normal);
        assert!(off.execute(op).is_ok());
    }
    assert_eq!(off.pending_tasks(), 3);
    let mut tight = ExecutorBuilder::new().memory_limit(0).build();
    let op = AsyncOperation::new(OperationType::DataSync, "x".to_string(), OperationPriority::Normal);
    assert_eq!(tight.execute(op), Err("Resource limits exceeded".to_string()));
}

#[test]
fn progress_tracker_steps_and_estimates() {
    let mut t = ProgressTracker::with_steps(4);
    assert_eq!(t.status_message(), "Initializing...");
    t.start_at("go", 100);
    assert!(t.is_started());
    t.update_progress_at(500, "half", 110);
    assert_eq!(t.progress(), 500);
    assert_eq!(t.current_step(), 2);
    assert_eq!(t.elapsed_seconds_at(110), Some(10));
    assert_eq!(t.estimated_remaining_seconds_at(110), Some(10));
    t.increment_step_at("three", 120);
    assert_eq!(t.current_step(), 3);
    assert_eq!(t.progress(), 750);
    t.update_progress_at(5000, "over", 121);
    assert_eq!(t.progress(), 1000);
    assert_eq!(t.estimated_remaining_seconds_at(121), None);
    t.set_error("bad");
    assert!(t.has_error());
    assert_eq!(t.error_message(), Some("bad".to_string()));
    t.clear_error();
    assert!(!t.has_error());
    t.complete_at(130);
    assert!(t.is_completed());
    assert_eq!(t.current_step(), 4);
    assert_eq!(t.status_message(), "Completed");
    let u = t.create_update_at(130);
    assert_eq!(u.progress, 1000);
    assert_eq!(u.timestamp, 130);
    assert_eq!(u.estimated_completion, None);
    t.reset();
    assert_eq!(t.progress(), 0);
    assert_eq!(t.status_message(), "Ready");
    assert!(!t.is_started());
    assert_eq!(t.total_steps(), Some(4));
}

#[test]
fn batch_tracker_follows_sub_tasks() {
    let (mut main, mine) = ProgressUtils::create_batch_tracker(2);
    assert_eq!(mine.len(), 2);
    assert_eq!(main.combined_progress(), 0);
    main.update_sub_progress_at(0, 400, "going", 5);
    assert_eq!(main.combined_progress(), 100);
    main.update_sub_progress_at(1, 1000, "done", 6);
    assert_eq!(main.current_step(), 2);
    assert_eq!(main.status_message(), "Completed operation 2");
    assert_eq!(main.progress(), 1000);
    assert_eq!(main.combined_progress(), (1000 + 700) / 2);
    let d = main.detailed_status_at(6);
    assert_eq!(d.sub_operations.len(), 2);
    assert_eq!(d.sub_operations[1].progress, 1000);
    assert_eq!(d.sub_operations[0].message, "going");
    let built = ProgressTrackerBuilder::new().with_steps(9).build();
    assert_eq!(built.total_steps(), Some(9));
}
