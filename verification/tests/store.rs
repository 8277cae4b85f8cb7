use alice::runtime_state::domain::{
    ActiveSessionLease, BindToken, GlobalIdentityBinding, ScheduleKind, ScheduledTask,
};
use alice::runtime_state::memory_store::InMemoryRuntimeStateStore;
use alice::runtime_state::ports::RuntimeStateStorePort;

fn task(id: &str, prompt: &str, next_run: i64, enabled: bool) -> ScheduledTask {
    ScheduledTask {
        task_id: id.to_string(),
        global_user_id: "global-1".to_string(),
        channel: Some("telegram".to_string()),
        prompt: prompt.to_string(),
        schedule: ScheduleKind::EveryMinutes(30),
        next_run_epoch_ms: next_run,
        enabled,
        last_run_epoch_ms: None,
    }
}

#[test]
fn store_identity_binding_roundtrip() {
    let mut store = InMemoryRuntimeStateStore::new();
    let binding = GlobalIdentityBinding {
        provider: "telegram".to_string(),
        external_user_id: "123".to_string(),
        global_user_id: "global-1".to_string(),
        bound_at_epoch_ms: 1,
    };
    assert!(store.upsert_identity_binding(&binding).is_ok());
    let loaded = store.get_identity_binding("telegram", "123").expect("ok").expect("present");
    assert_eq!(loaded.global_user_id, "global-1");
    assert_eq!(store.all_bindings().len(), 1);
}

#[test]
fn store_bind_token_roundtrip_and_consumption() {
    let mut store = InMemoryRuntimeStateStore::new();
    let token = BindToken {
        token: "bind-1".to_string(),
        global_user_id: "global-1".to_string(),
        provider: Some("discord".to_string()),
        expires_at_epoch_ms: 10_000,
        consumed_at_epoch_ms: None,
        created_at_epoch_ms: 1,
    };
    assert!(store.insert_bind_token(&token).is_ok());
    assert!(store.mark_bind_token_consumed("bind-1", 5).is_ok());
    let loaded = store.get_bind_token("bind-1").expect("ok").expect("present");
    assert_eq!(loaded.consumed_at_epoch_ms, Some(5));
    assert_eq!(store.all_tokens().len(), 1);
}

#[test]
fn store_active_session_roundtrip() {
    let mut store = InMemoryRuntimeStateStore::new();
    let lease = ActiveSessionLease {
        global_user_id: "global-1".to_string(),
        session_id: "session-1".to_string(),
        channel: Some("cli".to_string()),
        thread_id: Some("thread-1".to_string()),
        updated_at_epoch_ms: 1,
    };
    assert!(store.upsert_active_session(&lease).is_ok());
    let loaded = store.get_active_session("global-1").expect("ok").expect("present");
    assert_eq!(loaded.session_id, "session-1");
    assert_eq!(loaded.thread_id.as_deref(), Some("thread-1"));
    assert_eq!(store.all_sessions().len(), 1);
}

#[test]
fn store_due_listing_returns_enabled_due_tasks_only() {
    let mut store = InMemoryRuntimeStateStore::new();
    assert!(store.upsert_scheduled_task(&task("due", "Summarize alerts", 1_000, true)).is_ok());
    assert!(store.upsert_scheduled_task(&task("later", "Summarize alerts", 5_000, true)).is_ok());
    assert!(store.upsert_scheduled_task(&task("disabled", "Summarize alerts", 500, false)).is_ok());
    let tasks = store.list_due_tasks(1_000).expect("ok");
    assert_eq!(tasks.len(), 1);
    assert_eq!(tasks[0].task_id, "due");
}

#[test]
fn store_listing_returns_all_tasks_in_order() {
    let mut store = InMemoryRuntimeStateStore::new();
    assert!(store.upsert_scheduled_task(&task("task-a", "A", 5_000, false)).is_ok());
    assert!(store.upsert_scheduled_task(&task("task-b", "B", 1_000, true)).is_ok());
    let tasks = store.list_scheduled_tasks().expect("ok");
    assert_eq!(tasks.len(), 2);
    assert_eq!(tasks[0].task_id, "task-b");
    assert_eq!(tasks[1].task_id, "task-a");
}

#[test]
fn store_scheduled_task_roundtrip_and_replace() {
    let mut store = InMemoryRuntimeStateStore::new();
    let t = ScheduledTask { schedule: ScheduleKind::EveryMinutes(15), ..task("task-1", "Summarize alerts", 1_000, true) };
    assert!(store.upsert_scheduled_task(&t).is_ok());
    let loaded = store.get_scheduled_task("task-1").expect("ok").expect("present");
    assert_eq!(loaded.prompt, t.prompt);
    assert_eq!(loaded.schedule, t.schedule);
    let moved = ScheduledTask { next_run_epoch_ms: 9_000, ..t };
    assert!(store.upsert_scheduled_task(&moved).is_ok());
    let tasks = store.list_scheduled_tasks().expect("ok");
    assert_eq!(tasks.len(), 1);
    assert_eq!(tasks[0].next_run_epoch_ms, 9_000);
}
