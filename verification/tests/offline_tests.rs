use continuum_studio_iced::offline::{
    ConnectionTracker, OfflineQueue, OfflineState, OperationType, MAX_QUEUE_SIZE,
};

#[test]
fn test_queue_operations() {
    let mut queue = OfflineQueue::new();

    let id = queue.queue(OperationType::TaskAdd {
        title: "Test task".to_string(),
        description: None,
        priority: "normal".to_string(),
    });

    assert_eq!(queue.pending_count(), 1);
    assert!(!queue.is_empty());

    queue.complete(&id);
    assert!(queue.is_empty());
}

#[test]
fn test_offline_state_computation() {
    let mut tracker = ConnectionTracker::new();
    assert_eq!(tracker.offline_state(), OfflineState::FullyOffline);

    tracker.core_connected = true;
    assert_eq!(tracker.offline_state(), OfflineState::PartiallyOffline);

    tracker.dialog_connected = true;
    tracker.task_queue_connected = true;
    assert_eq!(tracker.offline_state(), OfflineState::Online);
}

#[test]
fn test_max_queue_size() {
    let mut queue = OfflineQueue::new();

    // Fill beyond max
    for i in 0..MAX_QUEUE_SIZE + 10 {
        queue.queue(OperationType::Custom {
            name: format!("op-{}", i),
            payload: serde_json::Value::Object(serde_json::Map::new()),
        });
    }

    assert_eq!(queue.pending_count(), MAX_QUEUE_SIZE);
}

#[test]
fn test_retry_tracking() {
    let mut queue = OfflineQueue::new();
    let id = queue.queue(OperationType::SettingsSync {
        settings_json: "{}".to_string(),
    });

    queue.mark_failed(&id, "Network error".to_string());
    queue.mark_failed(&id, "Timeout".to_string());

    let ops = queue.pending_operations();
    assert_eq!(ops[0].retry_count, 2);
    assert_eq!(ops[0].last_error, Some("Timeout".to_string()));

    queue.prune_failed(2);
    assert!(queue.is_empty());
}

#[test]
fn status_text_names_disconnected_backends() {
    let mut t = ConnectionTracker::new();
    assert_eq!(t.status_text(), "Offline - operations will be queued");
    t.core_connected = true;
    assert_eq!(t.status_text(), "Partial - Dialog, Task Queue disconnected");
    t.dialog_connected = true;
    assert_eq!(t.status_text(), "Partial - Task Queue disconnected");
    t.task_queue_connected = true;
    assert_eq!(t.status_text(), "All services connected");
    t.dialog_connected = false;
    assert_eq!(t.status_text(), "Partial - Dialog disconnected");
    t.core_connected = false;
    t.task_queue_connected = false;
    t.dialog_connected = true;
    assert_eq!(t.status_text(), "Partial - Core, Task Queue disconnected");
}

fn at(ms: u64) -> u128 {
    ms as u128 * 1_000_000
}

#[test]
fn queue_at_builds_ids_and_keeps_order() {
    let mut q = OfflineQueue::new();
    let a = q.queue_at(OperationType::TaskUpdate { task_id: "t1".to_string(), status: "done".to_string() }, at(1700000000123) + 5);
    let b = q.queue_at(OperationType::SessionAction { session_id: "s".to_string(), action: "stop".to_string() }, at(1700000000124) + 6);
    assert_eq!(a, "op-1700000000123-0");
    assert_eq!(b, "op-1700000000124-1");
    let batch = q.get_sync_batch(1);
    assert_eq!(batch.len(), 1);
    assert_eq!(batch[0].id, a);
    assert_eq!(q.get_sync_batch(10).len(), 2);
    assert_eq!(q.pending_operations()[1].id, b);
    assert_eq!(q.pending_operations()[1].timestamp, at(1700000000124) + 6);
}

#[test]
fn queue_ids_follow_the_pending_count() {
    let mut q = OfflineQueue::new();
    let a = q.queue_at(OperationType::SettingsSync { settings_json: String::new() }, at(7));
    let b = q.queue_at(OperationType::SettingsSync { settings_json: String::new() }, at(7));
    assert_eq!(a, "op-7-0");
    assert_eq!(b, "op-7-1");
    q.complete(&a);
    // One operation is pending, so the next ID within the same millisecond
    // repeats the suffix 1.
    let c = q.queue_at(OperationType::SettingsSync { settings_json: String::new() }, at(7));
    assert_eq!(c, "op-7-1");
    assert_eq!(q.pending_count(), 2);
    q.complete(&b);
    assert!(q.is_empty());
}

#[test]
fn sync_batch_is_ordered_by_timestamp() {
    let mut q = OfflineQueue::new();
    let late = q.queue_at(OperationType::SettingsSync { settings_json: String::new() }, at(30));
    let early = q.queue_at(OperationType::SettingsSync { settings_json: String::new() }, at(10));
    let middle = q.queue_at(OperationType::SettingsSync { settings_json: String::new() }, at(20));
    let early_too = q.queue_at(OperationType::SettingsSync { settings_json: String::new() }, at(10));
    let batch = q.get_sync_batch(3);
    assert_eq!(batch.len(), 3);
    assert_eq!(batch[0].id, early);
    assert_eq!(batch[1].id, early_too);
    assert_eq!(batch[2].id, middle);
    let all = q.get_sync_batch(10);
    assert_eq!(all.len(), 4);
    assert_eq!(all[3].id, late);
    assert_eq!(q.pending_operations()[0].id, late);
    assert!(q.get_sync_batch(0).is_empty());
}

#[test]
fn queue_id_has_the_op_prefix() {
    let mut q = OfflineQueue::new();
    let id = q.queue(OperationType::SettingsSync { settings_json: "{}".to_string() });
    assert!(id.starts_with("op-"));
    assert!(id.ends_with("-0"));
}

#[test]
fn full_queue_drops_the_oldest() {
    let mut q = OfflineQueue::new();
    for i in 0..(MAX_QUEUE_SIZE as u128 + 1) {
        q.queue_at(OperationType::SettingsSync { settings_json: String::new() }, at(i as u64));
    }
    assert_eq!(q.pending_count(), MAX_QUEUE_SIZE);
    assert_eq!(q.pending_operations()[0].id, "op-1-1");
    assert_eq!(q.pending_operations()[MAX_QUEUE_SIZE - 1].id, "op-1000-1000");
}

#[test]
fn complete_records_sync_and_removes_only_that_id() {
    let mut q = OfflineQueue::new();
    let a = q.queue_at(OperationType::SettingsSync { settings_json: String::new() }, at(1));
    let _b = q.queue_at(OperationType::SettingsSync { settings_json: String::new() }, at(2));
    assert!(q.last_sync().is_none());
    q.complete(&a);
    assert_eq!(q.pending_count(), 1);
    assert_eq!(q.pending_operations()[0].id, "op-2-1");
    assert!(q.last_sync().is_some());
    q.complete("unknown");
    assert_eq!(q.pending_count(), 1);
}

#[test]
fn failures_and_pruning() {
    let mut q = OfflineQueue::new();
    let a = q.queue_at(OperationType::SettingsSync { settings_json: String::new() }, at(1));
    let b = q.queue_at(OperationType::SettingsSync { settings_json: String::new() }, at(2));
    q.mark_failed(&a, "x".to_string());
    q.mark_failed("missing", "y".to_string());
    assert_eq!(q.pending_operations()[0].retry_count, 1);
    assert_eq!(q.pending_operations()[1].retry_count, 0);
    q.prune_failed(1);
    assert_eq!(q.pending_count(), 1);
    assert_eq!(q.pending_operations()[0].id, b);
}

#[test]
fn state_and_sync_flags() {
    let mut q = OfflineQueue::new();
    assert_eq!(q.state(), OfflineState::Online);
    q.set_state(OfflineState::PartiallyOffline);
    assert_eq!(q.state(), OfflineState::PartiallyOffline);
    assert!(!q.is_syncing());
    q.set_syncing(true);
    assert!(q.is_syncing());
    q.queue_at(OperationType::SettingsSync { settings_json: String::new() }, at(1));
    q.clear();
    assert!(q.is_empty());
    let (ops, state, last, syncing) = q.into_parts();
    assert!(ops.is_empty());
    assert_eq!(state, OfflineState::PartiallyOffline);
    assert!(last.is_none());
    assert!(syncing);
    let q2 = OfflineQueue::from_parts(ops, state, last, syncing);
    assert_eq!(q2.state(), OfflineState::PartiallyOffline);
}

#[test]
fn defaults_match_new() {
    let q = OfflineQueue::default();
    assert!(q.is_empty());
    assert_eq!(q.state(), OfflineState::Online);
    assert!(!q.is_syncing());
    let t = ConnectionTracker::default();
    assert_eq!(t.offline_state(), OfflineState::FullyOffline);
}
