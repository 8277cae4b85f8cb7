use alice::runtime_state::domain::{
    ActiveSessionLease, BindToken, GlobalIdentityBinding, ScheduleKind, ScheduledTask,
};
use alice::runtime_state::error::{RuntimeStateServiceError, RuntimeStateValidationError};
use alice::runtime_state::memory_store::InMemoryRuntimeStateStore;
use alice::runtime_state::ports::RuntimeStateStorePort;
use alice::runtime_state::service::RuntimeStateService;

fn service() -> RuntimeStateService<InMemoryRuntimeStateStore> {
    match RuntimeStateService::new(InMemoryRuntimeStateStore::new()) {
        Ok(s) => s,
        Err(_) => panic!("in-memory store should initialize"),
    }
}

fn task(id: &str, next_run: i64, enabled: bool, schedule: ScheduleKind) -> ScheduledTask {
    ScheduledTask {
        task_id: id.to_string(),
        global_user_id: "global-1".to_string(),
        channel: Some("telegram".to_string()),
        prompt: "Summarize alerts".to_string(),
        schedule,
        next_run_epoch_ms: next_run,
        enabled,
        last_run_epoch_ms: None,
    }
}

#[test]
fn global_identity_binding_stores_fields() {
    let binding = GlobalIdentityBinding {
        provider: "telegram".to_string(),
        external_user_id: "123".to_string(),
        global_user_id: "global-1".to_string(),
        bound_at_epoch_ms: 42,
    };

    assert_eq!(binding.provider, "telegram");
    assert_eq!(binding.global_user_id, "global-1");
}

#[test]
fn every_minutes_next_run_advances_by_interval() {
    let schedule = ScheduleKind::EveryMinutes(30);
    assert_eq!(schedule.next_run_after(1_000), 1_801_000);
}

#[test]
fn scheduled_task_validate_rejects_blank_prompt() {
    let task = ScheduledTask {
        task_id: "task-1".to_string(),
        global_user_id: "global-1".to_string(),
        channel: None,
        prompt: "   ".to_string(),
        schedule: ScheduleKind::EveryMinutes(5),
        next_run_epoch_ms: 1_000,
        enabled: true,
        last_run_epoch_ms: None,
    };

    assert!(task.validate().is_err());
}

#[test]
fn issue_and_consume_bind_token_creates_binding() {
    let mut service = service();
    let Ok(token) = service.issue_bind_token("global-1", Some("telegram"), 60_000) else {
        return;
    };
    let Ok(binding) = service.consume_bind_token(&token.token, "telegram", "123") else {
        return;
    };
    let Some(binding) = binding else {
        panic!("bind token should be consumed into a binding");
    };

    assert_eq!(binding.global_user_id, "global-1");
    assert_eq!(binding.provider, "telegram");
}

#[test]
fn service_active_session_roundtrip() {
    let mut service = service();
    assert!(service
        .upsert_active_session_with_thread_id("global-1", "session-1", Some("cli"), Some("thread-1"))
        .is_ok());
    let Ok(lease) = service.get_active_session("global-1") else {
        return;
    };
    let Some(lease) = lease else {
        panic!("active session should be readable");
    };

    assert_eq!(lease.session_id, "session-1");
    assert_eq!(lease.channel.as_deref(), Some("cli"));
    assert_eq!(lease.thread_id.as_deref(), Some("thread-1"));
}

#[test]
fn mark_task_executed_advances_next_run() {
    let mut service = service();
    let task = ScheduledTask {
        task_id: "task-1".to_string(),
        global_user_id: "global-1".to_string(),
        channel: Some("telegram".to_string()),
        prompt: "Summarize alerts".to_string(),
        schedule: ScheduleKind::EveryMinutes(15),
        next_run_epoch_ms: 1_000,
        enabled: true,
        last_run_epoch_ms: None,
    };
    assert!(service.insert_scheduled_task(task).is_ok());

    let Ok(updated) = service.mark_task_executed("task-1", 1_000) else {
        return;
    };
    let Some(updated) = updated else {
        panic!("scheduled task should be updated");
    };

    assert_eq!(updated.last_run_epoch_ms, Some(1_000));
    assert_eq!(updated.next_run_epoch_ms, 901_000);
}

#[test]
fn service_issues_and_consumes_bind_tokens() {
    let _ = RuntimeStateService::<InMemoryRuntimeStateStore>::issue_bind_token;
}

#[test]
fn scheduled_task_supports_interval_execution() {
    let task = ScheduledTask {
        task_id: "task-1".to_string(),
        global_user_id: "global-user-1".to_string(),
        channel: Some("telegram".to_string()),
        prompt: "Summarize overnight alerts".to_string(),
        schedule: ScheduleKind::EveryMinutes(30),
        next_run_epoch_ms: 1_000,
        enabled: true,
        last_run_epoch_ms: None,
    };

    assert!(task.enabled);
}

#[test]
fn bind_token_is_single_use() {
    let mut service = service();
    let token = service.issue_bind_token_at("global-1", None, 60_000, 5_000).expect("issued");
    let first = service.consume_bind_token_at(&token.token, "discord", "u1", 6_000).expect("ok");
    assert!(first.is_some());
    let second = service.consume_bind_token_at(&token.token, "discord", "u2", 7_000).expect("ok");
    assert!(second.is_none());
    assert_eq!(service.resolve_global_user_id("discord", "u2").expect("ok"), None);
}

#[test]
fn expired_bind_token_is_refused() {
    let mut service = service();
    let token = service.issue_bind_token_at("global-1", None, 1_000, 5_000).expect("issued");
    assert_eq!(token.expires_at_epoch_ms, 6_000);
    let late = service.consume_bind_token_at(&token.token, "discord", "u1", 6_001).expect("ok");
    assert!(late.is_none());
    let on_time = service.consume_bind_token_at(&token.token, "discord", "u1", 6_000).expect("ok");
    assert!(on_time.is_some());
}

#[test]
fn provider_restricted_token_refuses_other_providers() {
    let mut service = service();
    let token =
        service.issue_bind_token_at("global-1", Some("telegram"), 60_000, 5_000).expect("issued");
    let wrong = service.consume_bind_token_at(&token.token, "discord", "u1", 6_000).expect("ok");
    assert!(wrong.is_none());
    let right = service.consume_bind_token_at(&token.token, "telegram", "u1", 6_000).expect("ok");
    assert_eq!(right.map(|b| b.global_user_id), Some("global-1".to_string()));
}

#[test]
fn bind_token_text_carries_time_and_counter() {
    let mut service = service();
    let first = service.issue_bind_token_at("g", None, 10, 1_234).expect("issued");
    let second = service.issue_bind_token_at("g", None, 10, 1_234).expect("issued");
    assert_eq!(first.token, "bind-1234-0001");
    assert_eq!(second.token, "bind-1234-0002");
    assert_eq!(first.created_at_epoch_ms, 1_234);
}

#[test]
fn non_positive_ttl_is_refused() {
    let mut service = service();
    let r = service.issue_bind_token("g", None, 0);
    assert!(matches!(
        r,
        Err(RuntimeStateServiceError::Validation(RuntimeStateValidationError::InvalidBindTokenTtl))
    ));
}

#[test]
fn unknown_bind_token_is_refused() {
    let mut service = service();
    let r = service.consume_bind_token_at("bind-0-0001", "cli", "u", 1).expect("ok");
    assert!(r.is_none());
}

#[test]
fn binding_read_after_write() {
    let mut service = service();
    service.bind_identity("discord", "user-42", "global-user").expect("bound");
    assert_eq!(
        service.resolve_global_user_id("discord", "user-42").expect("ok"),
        Some("global-user".to_string())
    );
    assert_eq!(service.resolve_global_user_id("discord", "user-43").expect("ok"), None);
}

#[test]
fn insert_rejects_invalid_schedules() {
    let mut service = service();
    let r = service.insert_scheduled_task(task("t", 1, true, ScheduleKind::Hourly { minute: 60 }));
    assert!(matches!(
        r,
        Err(RuntimeStateServiceError::Validation(RuntimeStateValidationError::InvalidScheduleMinute))
    ));
    let r = service.insert_scheduled_task(task("t", 1, true, ScheduleKind::DailyAt { hour: 24, minute: 0 }));
    assert!(matches!(
        r,
        Err(RuntimeStateServiceError::Validation(RuntimeStateValidationError::InvalidScheduleHour))
    ));
    let r = service.insert_scheduled_task(task("t", 1, true, ScheduleKind::EveryMinutes(0)));
    assert!(matches!(
        r,
        Err(RuntimeStateServiceError::Validation(RuntimeStateValidationError::InvalidScheduleMinutes))
    ));
    assert!(service.list_scheduled_tasks().expect("ok").is_empty());
}

#[test]
fn due_listing_holds_enabled_due_tasks_in_order() {
    let mut service = service();
    service.insert_scheduled_task(task("b", 500, true, ScheduleKind::EveryMinutes(1))).expect("ok");
    service.insert_scheduled_task(task("a", 500, true, ScheduleKind::EveryMinutes(1))).expect("ok");
    service.insert_scheduled_task(task("c", 100, true, ScheduleKind::EveryMinutes(1))).expect("ok");
    service.insert_scheduled_task(task("d", 100, false, ScheduleKind::EveryMinutes(1))).expect("ok");
    service.insert_scheduled_task(task("e", 900, true, ScheduleKind::EveryMinutes(1))).expect("ok");
    let due: Vec<String> =
        service.list_due_tasks(500).expect("ok").into_iter().map(|t| t.task_id).collect();
    assert_eq!(due, vec!["c", "a", "b"]);
    let all: Vec<String> =
        service.list_scheduled_tasks().expect("ok").into_iter().map(|t| t.task_id).collect();
    assert_eq!(all, vec!["c", "d", "a", "b", "e"]);
}

#[test]
fn executed_task_is_not_due_when_it_ran() {
    let mut service = service();
    service
        .insert_scheduled_task(task("t", 1_000, true, ScheduleKind::Hourly { minute: 30 }))
        .expect("ok");
    let updated = service.mark_task_executed("t", 1_000).expect("ok").expect("present");
    assert_eq!(updated.next_run_epoch_ms, 1_800_000);
    assert!(service.list_due_tasks(1_000).expect("ok").is_empty());
}

#[test]
fn marking_unknown_task_changes_nothing() {
    let mut service = service();
    assert!(service.mark_task_executed("missing", 10).expect("ok").is_none());
}

#[test]
fn hourly_and_daily_schedules_align() {
    assert_eq!(ScheduleKind::Hourly { minute: 15 }.next_run_after(3_600_000), 4_500_000);
    assert_eq!(ScheduleKind::Hourly { minute: 0 }.next_run_after(3_600_000), 7_200_000);
    assert_eq!(ScheduleKind::DailyAt { hour: 1, minute: 30 }.next_run_in_zone(0, 0), 5_400_000);
    assert_eq!(ScheduleKind::DailyAt { hour: 0, minute: 0 }.next_run_in_zone(0, 0), 86_400_000);
}

#[test]
fn daily_schedules_follow_the_local_clock() {
    let daily = ScheduleKind::DailyAt { hour: 8, minute: 15 };
    // Two hours ahead of UTC: 08:15 local is 06:15 UTC.
    assert_eq!(daily.next_run_in_zone(0, 7_200_000), 22_500_000);
    // Five and a half hours behind UTC: 08:15 local is 13:45 UTC.
    assert_eq!(daily.next_run_in_zone(0, -19_800_000), 49_500_000);
    // Just after the local run, the next one is a day later.
    assert_eq!(daily.next_run_in_zone(22_500_001, 7_200_000), 22_500_000 + 86_400_000);
    // Before the epoch, in local time.
    assert_eq!(daily.next_run_in_zone(-3_600_000, 0), 29_700_000);
    // Whatever the machine's zone, the next run comes within a day and on a whole minute.
    let next = daily.next_run_after(1_000_000);
    assert!(next > 1_000_000 && next <= 1_000_000 + 86_400_000);
    assert_eq!(next % 60_000, 0);
}

#[test]
fn store_upserts_replace_by_key() {
    let mut store = InMemoryRuntimeStateStore::new();
    let lease = ActiveSessionLease {
        global_user_id: "g".to_string(),
        session_id: "s1".to_string(),
        channel: None,
        thread_id: None,
        updated_at_epoch_ms: 1,
    };
    store.upsert_active_session(&lease).expect("ok");
    let newer = ActiveSessionLease { session_id: "s2".to_string(), updated_at_epoch_ms: 2, ..lease };
    store.upsert_active_session(&newer).expect("ok");
    assert_eq!(store.get_active_session("g").expect("ok").map(|l| l.session_id), Some("s2".to_string()));
    let token = BindToken {
        token: "tok".to_string(),
        global_user_id: "g".to_string(),
        provider: None,
        expires_at_epoch_ms: 10,
        consumed_at_epoch_ms: None,
        created_at_epoch_ms: 1,
    };
    store.insert_bind_token(&token).expect("ok");
    assert!(store.insert_bind_token(&token).is_err());
    store.mark_bind_token_consumed("tok", 5).expect("ok");
    assert_eq!(store.get_bind_token("tok").expect("ok").and_then(|t| t.consumed_at_epoch_ms), Some(5));
}

#[test]
fn validation_messages_read_as_documented() {
    assert_eq!(
        RuntimeStateValidationError::InvalidScheduleMinutes.message(),
        "schedule interval must be greater than zero minutes"
    );
    assert_eq!(RuntimeStateValidationError::EmptyTaskPrompt.message(), "scheduled task prompt cannot be blank");
}
