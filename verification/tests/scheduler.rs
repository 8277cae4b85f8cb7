use alice::runtime_state::domain::{ScheduleKind, ScheduledTask};
use alice::runtime_state::memory_store::InMemoryRuntimeStateStore;
use alice::runtime_state::service::RuntimeStateService;
use alice::scheduler::{
    delivery_channel, effective_poll_interval_ms, fallback_session_id, SchedulerSessionSource,
    SchedulerTickExecutor, SchedulerTickOutcome,
};

fn service() -> RuntimeStateService<InMemoryRuntimeStateStore> {
    match RuntimeStateService::new(InMemoryRuntimeStateStore::new()) {
        Ok(s) => s,
        Err(_) => panic!("in-memory store should initialize"),
    }
}

fn task(id: &str, channel: Option<&str>, next_run: i64, enabled: bool) -> ScheduledTask {
    ScheduledTask {
        task_id: id.to_string(),
        global_user_id: "global-1".to_string(),
        channel: channel.map(ToString::to_string),
        prompt: "Summarize".to_string(),
        schedule: ScheduleKind::EveryMinutes(10),
        next_run_epoch_ms: next_run,
        enabled,
        last_run_epoch_ms: None,
    }
}

#[test]
fn fallback_session_names_the_user() {
    assert_eq!(fallback_session_id("global-1"), "scheduled-global-1");
}

#[test]
fn delivery_goes_to_the_active_channel_when_compatible() {
    assert_eq!(delivery_channel(Some("telegram"), Some("telegram")), Some("telegram"));
    assert_eq!(delivery_channel(Some("telegram"), Some("discord")), None);
    assert_eq!(delivery_channel(Some("telegram"), None), None);
    assert_eq!(delivery_channel(None, Some("discord")), Some("discord"));
    assert_eq!(delivery_channel(None, None), None);
}

#[test]
fn poll_interval_is_at_least_a_second() {
    assert_eq!(effective_poll_interval_ms(10), 1_000);
    assert_eq!(effective_poll_interval_ms(30_000), 30_000);
}

#[test]
fn due_enabled_tasks_are_planned_and_executed() {
    let mut svc = service();
    svc.insert_scheduled_task(task("t1", None, 1_000, true)).expect("ok");
    svc.insert_scheduled_task(task("t2", None, 1_000, false)).expect("ok");
    svc.insert_scheduled_task(task("t3", None, 9_000, true)).expect("ok");
    let exec = SchedulerTickExecutor::new();
    let due = exec.due_tasks(&svc, 2_000).expect("listed");
    assert_eq!(due.len(), 1);
    let plan = exec.plan_task(&svc, &due[0]).expect("planned");
    assert_eq!(plan.session_id, "scheduled-global-1");
    assert_eq!(plan.session_source, SchedulerSessionSource::Fallback);
    assert_eq!(exec.delivery_target(&due[0], &plan), None);
    let done = exec.finish_task(&mut svc, &due[0], plan, None, 2_000);
    assert_eq!(done.outcome, SchedulerTickOutcome::Executed);
    assert!(exec.due_tasks(&svc, 2_000).expect("listed").is_empty());
    let stored = svc.list_scheduled_tasks().expect("ok");
    let t1 = stored.iter().find(|t| t.task_id == "t1").expect("present");
    assert_eq!(t1.last_run_epoch_ms, Some(2_000));
    assert_eq!(t1.next_run_epoch_ms, 602_000);
    let report = exec.report(2_000, 1, vec![done]);
    assert_eq!(report.due_task_count, 1);
}

#[test]
fn active_lease_is_preferred_and_results_go_back_to_its_thread() {
    let mut svc = service();
    svc.upsert_active_session_with_thread_id("global-1", "shared", Some("telegram"), Some("chat-9"))
        .expect("ok");
    let t = task("t1", Some("telegram"), 0, true);
    svc.insert_scheduled_task(t.clone()).expect("ok");
    let exec = SchedulerTickExecutor::new();
    let plan = exec.plan_task(&svc, &t).expect("planned");
    assert_eq!(plan.session_id, "shared");
    assert_eq!(plan.session_source, SchedulerSessionSource::ActiveLease);
    assert_eq!(exec.delivery_target(&t, &plan), Some(("telegram".to_string(), "chat-9".to_string())));
}

#[test]
fn failed_turns_leave_the_task_due() {
    let mut svc = service();
    let t = task("t1", None, 0, true);
    svc.insert_scheduled_task(t.clone()).expect("ok");
    let exec = SchedulerTickExecutor::new();
    let plan = exec.plan_task(&svc, &t).expect("planned");
    let done = exec.finish_task(&mut svc, &t, plan, Some("llm down".to_string()), 5);
    assert_eq!(
        done.outcome,
        SchedulerTickOutcome::Failed { error: "failed to run scheduled task 't1': llm down".to_string() }
    );
    assert_eq!(exec.due_tasks(&svc, 5).expect("listed").len(), 1);
}

#[test]
fn vanished_tasks_fail() {
    let mut svc = service();
    let t = task("ghost", None, 0, true);
    let exec = SchedulerTickExecutor::new();
    let plan = exec.plan_task(&svc, &t).expect("planned");
    let done = exec.finish_task(&mut svc, &t, plan, None, 5);
    assert_eq!(
        done.outcome,
        SchedulerTickOutcome::Failed {
            error: "task 'ghost' disappeared before it could be marked executed".to_string()
        }
    );
}

#[test]
fn a_tick_records_each_due_task_once_in_due_order() {
    let mut svc = service();
    svc.insert_scheduled_task(task("b", None, 50, true)).expect("stored");
    svc.insert_scheduled_task(task("a", None, 50, true)).expect("stored");
    svc.insert_scheduled_task(task("c", None, 10, true)).expect("stored");
    svc.insert_scheduled_task(task("later", None, 5_000, true)).expect("stored");
    svc.upsert_active_session("global-1", "sess-1", Some("discord")).expect("lease");
    let executor = SchedulerTickExecutor::new();
    let planned = executor.plan_tick(&svc, 100).expect("planned");
    let ids: Vec<String> = planned.iter().map(|p| p.task.task_id.clone()).collect();
    assert_eq!(ids, vec!["c", "a", "b"]);
    let report = executor.finish_tick(&mut svc, 100, planned, vec![None, Some("boom".to_string()), None]);
    assert_eq!(report.due_task_count, 3);
    assert_eq!(report.now_epoch_ms, 100);
    let got: Vec<(String, String)> =
        report.executions.iter().map(|e| (e.task_id.clone(), e.session_id.clone())).collect();
    assert_eq!(
        got,
        vec![
            ("c".to_string(), "sess-1".to_string()),
            ("a".to_string(), "sess-1".to_string()),
            ("b".to_string(), "sess-1".to_string()),
        ]
    );
    assert_eq!(report.executions[0].outcome, SchedulerTickOutcome::Executed);
    assert_eq!(
        report.executions[1].outcome,
        SchedulerTickOutcome::Failed { error: "failed to run scheduled task 'a': boom".to_string() }
    );
    assert_eq!(report.executions[2].outcome, SchedulerTickOutcome::Executed);
    assert_eq!(report.executions[0].session_source, SchedulerSessionSource::ActiveLease);
    let due_after: Vec<String> =
        svc.list_due_tasks(100).expect("listed").into_iter().map(|t| t.task_id).collect();
    assert_eq!(due_after, vec!["a"]);
}

#[test]
fn next_run_epoch_advances_after_success() {
    let mut svc = service();
    let task = ScheduledTask {
        task_id: "task-next-run".to_string(),
        global_user_id: "global-77".to_string(),
        channel: Some("telegram".to_string()),
        prompt: "run task-next-run".to_string(),
        schedule: ScheduleKind::EveryMinutes(30),
        next_run_epoch_ms: 1_000,
        enabled: true,
        last_run_epoch_ms: None,
    };
    assert!(svc.insert_scheduled_task(task).is_ok());

    let executor = SchedulerTickExecutor::default();
    let planned = executor.plan_tick(&svc, 1_000).expect("scheduler tick should succeed");
    let turns = vec![None; planned.len()];
    let report = executor.finish_tick(&mut svc, 1_000, planned, turns);
    assert_eq!(report.executions[0].outcome, SchedulerTickOutcome::Executed);

    let still_not_due = svc.list_due_tasks(1_800_999).expect("listing due tasks should succeed");
    assert!(still_not_due.is_empty(), "task should advance beyond the old window");

    let due_again = svc.list_due_tasks(1_801_000).expect("listing due tasks should succeed");
    assert_eq!(due_again.len(), 1, "task should reappear at the next scheduled time");
    assert_eq!(due_again[0].task_id, "task-next-run");
}
