use alice::commands::{
    channel_adapters, ChannelKind,
    build_schedule_kind, cmd_issue_bind_token, cmd_orchestrate, cmd_schedule_add,
    cmd_schedule_add_at, cmd_schedule_list, new_scheduled_task, pair_worker_specs, render_schedule,
    schedule_list_line, ttl_ms_from_minutes, CommandError,
};
use alice::identity::IdentityResolver;
use alice::orchestration::{OrchestrationProfileRegistry, Orchestrator};
use alice::runtime_state::domain::ScheduleKind;
use alice::runtime_state::error::{RuntimeStateServiceError, RuntimeStateValidationError};
use alice::runtime_state::memory_store::InMemoryRuntimeStateStore;
use alice::runtime_state::service::RuntimeStateService;

fn service() -> RuntimeStateService<InMemoryRuntimeStateStore> {
    match RuntimeStateService::new(InMemoryRuntimeStateStore::new()) {
        Ok(s) => s,
        Err(_) => panic!("in-memory store should initialize"),
    }
}

#[test]
fn schedule_flags_choose_exactly_one_mode() {
    assert_eq!(build_schedule_kind(Some(30), None, None, None).ok(), Some(ScheduleKind::EveryMinutes(30)));
    assert_eq!(
        build_schedule_kind(None, Some(5), None, None).ok(),
        Some(ScheduleKind::Hourly { minute: 5 })
    );
    assert_eq!(
        build_schedule_kind(None, None, Some(7), Some(45)).ok(),
        Some(ScheduleKind::DailyAt { hour: 7, minute: 45 })
    );
    let e = build_schedule_kind(Some(30), Some(5), None, None).err().expect("ambiguous");
    assert!(matches!(e, CommandError::AmbiguousScheduleMode));
    assert_eq!(
        e.message(),
        "choose exactly one schedule mode: --every-minutes, --hourly-minute, or --daily-hour/--daily-minute"
    );
    assert!(matches!(
        build_schedule_kind(None, None, None, None),
        Err(CommandError::AmbiguousScheduleMode)
    ));
}

#[test]
fn daily_schedule_needs_hour_and_minute() {
    let e = build_schedule_kind(None, None, Some(7), None).err().expect("incomplete");
    assert!(matches!(e, CommandError::IncompleteDailySchedule));
    assert_eq!(e.message(), "daily schedules require both --daily-hour and --daily-minute");
    assert!(matches!(
        build_schedule_kind(None, None, None, Some(3)),
        Err(CommandError::IncompleteDailySchedule)
    ));
}

#[test]
fn invalid_schedule_values_are_refused() {
    assert!(matches!(
        build_schedule_kind(Some(0), None, None, None),
        Err(CommandError::InvalidSchedule(RuntimeStateValidationError::InvalidScheduleMinutes))
    ));
    assert!(matches!(
        build_schedule_kind(None, Some(60), None, None),
        Err(CommandError::InvalidSchedule(RuntimeStateValidationError::InvalidScheduleMinute))
    ));
    let e = build_schedule_kind(None, None, Some(24), Some(0)).err().expect("invalid");
    assert_eq!(e.message(), "schedule hour must be between 0 and 23");
}

#[test]
fn schedules_render_as_labels() {
    assert_eq!(render_schedule(&ScheduleKind::EveryMinutes(15)), "every_15_minutes");
    assert_eq!(render_schedule(&ScheduleKind::Hourly { minute: 5 }), "hourly_at_05");
    assert_eq!(render_schedule(&ScheduleKind::DailyAt { hour: 7, minute: 30 }), "daily_at_07:30");
}

#[test]
fn ttl_minutes_become_milliseconds() {
    assert_eq!(ttl_ms_from_minutes(10).ok(), Some(600_000));
    assert_eq!(ttl_ms_from_minutes(i64::MAX as u64).ok(), Some(i64::MAX));
    let e = ttl_ms_from_minutes(u64::MAX).err().expect("too large");
    assert_eq!(e.message(), "ttl_minutes is too large");
}

#[test]
fn bind_token_command_issues_tokens() {
    let mut resolver = IdentityResolver::new(service());
    let token = cmd_issue_bind_token(&mut resolver, "global-1", Some("telegram"), 10).expect("issued");
    assert!(token.token.starts_with("bind-"));
    assert_eq!(token.expires_at_epoch_ms - token.created_at_epoch_ms, 600_000);
    assert!(matches!(
        cmd_issue_bind_token(&mut resolver, "global-1", None, 0),
        Err(CommandError::Service(RuntimeStateServiceError::Validation(
            RuntimeStateValidationError::InvalidBindTokenTtl
        )))
    ));
}

#[test]
fn worker_arguments_pair_up() {
    let pairs = pair_worker_specs(vec!["a".into(), "p1".into(), "b".into(), "p2".into()]).expect("paired");
    assert_eq!(pairs, vec![("a".to_string(), "p1".to_string()), ("b".to_string(), "p2".to_string())]);
    let e = pair_worker_specs(vec!["a".into()]).err().expect("odd");
    assert_eq!(e.message(), "worker arguments must be provided as repeated <profile> <prompt> pairs");
    assert_eq!(pair_worker_specs(vec![]).expect("empty").len(), 0);
}

#[test]
fn scheduled_task_is_created_enabled_and_due_after_now() {
    let t = new_scheduled_task(1_000, 7, "g", Some("cli"), "do it", ScheduleKind::EveryMinutes(30));
    assert_eq!(t.task_id, "task-1000-0007");
    assert_eq!(t.next_run_epoch_ms, 1_801_000);
    assert!(t.enabled);
    assert_eq!(t.last_run_epoch_ms, None);
    assert_eq!(t.channel.as_deref(), Some("cli"));
}

#[test]
fn schedule_add_and_list() {
    let mut svc = service();
    let mut counter: u64 = 1;
    let t = cmd_schedule_add_at(&mut svc, &mut counter, 1_000, "g", None, "report", ScheduleKind::Hourly { minute: 30 })
        .expect("stored");
    assert_eq!(counter, 2);
    assert_eq!(t.task_id, "task-1000-0001");
    assert!(matches!(
        cmd_schedule_add_at(&mut svc, &mut counter, 1_000, "g", None, "  ", ScheduleKind::Hourly { minute: 30 }),
        Err(CommandError::Service(RuntimeStateServiceError::Validation(
            RuntimeStateValidationError::EmptyTaskPrompt
        )))
    ));
    let lines = cmd_schedule_list(&svc).expect("listed");
    assert_eq!(lines, vec!["task-1000-0001\tg\thourly_at_30\t1800000\tenabled".to_string()]);
    let live = cmd_schedule_add(&mut svc, &mut counter, "g", Some("cli"), "later", ScheduleKind::EveryMinutes(1))
        .expect("stored");
    assert!(live.task_id.starts_with("task-"));
    assert_eq!(cmd_schedule_list(&svc).expect("listed").len(), 2);
}

#[test]
fn disabled_tasks_list_as_disabled() {
    let mut t = new_scheduled_task(0, 1, "g", None, "p", ScheduleKind::DailyAt { hour: 1, minute: 2 });
    t.enabled = false;
    t.next_run_epoch_ms = ScheduleKind::DailyAt { hour: 1, minute: 2 }.next_run_in_zone(0, 0);
    assert_eq!(schedule_list_line(&t), "task-0-0001\tg\tdaily_at_01:02\t3720000\tdisabled");
}

#[test]
fn orchestrate_command_needs_an_orchestrator() {
    let e = cmd_orchestrate::<u8>(None, vec![]).err().expect("unavailable");
    assert_eq!(e.message(), "orchestration is only available when agent.backend = \"acp\"");
    let mut registry = OrchestrationProfileRegistry::new();
    registry.register("manager", 1u8);
    let o = Orchestrator::new("manager", registry);
    let (_, tasks) = cmd_orchestrate(Some(o), vec![("w".to_string(), "p".to_string())]).expect("ok");
    assert_eq!(tasks.len(), 1);
    assert_eq!(tasks[0].profile_name(), "w");
    assert_eq!(tasks[0].prompt(), "p");
}

#[test]
fn schedule_add_refuses_blank_prompt_and_moves_counter() {
    let mut svc = service();
    let mut counter: u64 = 5;
    let err = cmd_schedule_add(&mut svc, &mut counter, "g", None, "   ", ScheduleKind::EveryMinutes(5));
    assert!(matches!(
        err,
        Err(CommandError::Service(RuntimeStateServiceError::Validation(
            RuntimeStateValidationError::EmptyTaskPrompt
        )))
    ));
    assert_eq!(counter, 6);
    assert!(cmd_schedule_list(&svc).expect("listed").is_empty());
    let ok = cmd_schedule_add(&mut svc, &mut counter, "g", None, "run", ScheduleKind::Hourly { minute: 0 })
        .expect("stored");
    assert!(ok.task_id.ends_with("-0006"));
    assert_eq!(counter, 7);
}

#[test]
fn channel_run_starts_cli_and_configured_channels() {
    assert_eq!(channel_adapters(false, true, false, true), vec![ChannelKind::Cli]);
    assert_eq!(channel_adapters(true, false, true, true), vec![ChannelKind::Cli, ChannelKind::Telegram]);
    assert_eq!(
        channel_adapters(true, true, true, true),
        vec![ChannelKind::Cli, ChannelKind::Discord, ChannelKind::Telegram]
    );
}
