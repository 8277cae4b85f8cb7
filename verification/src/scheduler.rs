//! Scheduler tick decisions.
//!
//! A tick loads the due tasks, picks the session each task runs in, runs the task's
//! prompt through the agent, delivers the answer to the owner's active thread when
//! the channels agree, and marks the task executed. Running the prompt and posting
//! the answer are done by the caller; the decisions around them live here. Callers
//! pass `now_epoch_ms` explicitly so ticks are deterministic.
use vstd::prelude::*;

use crate::keyed::views;
use crate::runtime_state::domain::{opt_str_view, ScheduledTask, ScheduledTaskView};
use crate::runtime_state::error::{service_message, RuntimeStateServiceError};
use crate::runtime_state::ports::{is_due, is_task_listing, RuntimeStateModel, RuntimeStateStorePort};
use crate::runtime_state::service::{executed_task, RuntimeStateService};
use crate::text::{push_str, str_eq, string_from_chars};

verus! {

/// Source of the effective session id used for a task execution.
#[derive(Debug, Clone, Copy, PartialEq, Eq, Structural)]
pub enum SchedulerSessionSource {
    /// An active session lease existed for the global user.
    ActiveLease,
    /// No active lease existed, so a deterministic fallback session id was used.
    Fallback,
}

/// Outcome for a single scheduled task during one tick.
#[derive(Debug, Clone, PartialEq, Eq)]
pub enum SchedulerTickOutcome {
    /// Task ran successfully and was marked executed.
    Executed,
    /// Task failed while resolving the session or running the turn.
    Failed {
        /// Human-readable failure detail for logs and tests.
        error: String,
    },
}

/// Per-task execution record.
#[derive(Debug, Clone, PartialEq, Eq)]
pub struct SchedulerTaskExecution {
    /// Stable task identifier.
    pub task_id: String,
    /// Stable global user id.
    pub global_user_id: String,
    /// Effective session id used for the turn.
    pub session_id: String,
    /// Where the session id came from.
    pub session_source: SchedulerSessionSource,
    /// Final outcome for the task.
    pub outcome: SchedulerTickOutcome,
}

/// Summary of one scheduler tick.
#[derive(Debug, Clone, PartialEq, Eq)]
pub struct SchedulerTickReport {
    /// Timestamp used to evaluate due tasks.
    pub now_epoch_ms: i64,
    /// Number of due tasks loaded from runtime-state storage.
    pub due_task_count: usize,
    /// Per-task execution results in due-task order.
    pub executions: Vec<SchedulerTaskExecution>,
}

/// Where and how one due task runs.
#[derive(Debug, Clone, PartialEq, Eq)]
pub struct TaskRunPlan {
    /// Effective session id used for the turn.
    pub session_id: String,
    /// Where the session id came from.
    pub session_source: SchedulerSessionSource,
    /// Channel of the owner's active lease, if any.
    pub lease_channel: Option<String>,
    /// Thread of the owner's active lease, if any.
    pub lease_thread_id: Option<String>,
}

/// A due task and how it runs: its plan, or the record of a task whose session could not
/// be loaded.
pub struct PlannedTask {
    /// The due task.
    pub task: ScheduledTask,
    /// Its plan, or its failed execution record.
    pub plan: Result<TaskRunPlan, SchedulerTaskExecution>,
}

/// The tasks of a list of planned tasks, in order.
pub open spec fn planned_task_views(s: Seq<PlannedTask>) -> Seq<ScheduledTaskView> {
    Seq::new(s.len(), |i: int| s[i].task@)
}

/// Whether `r` is how `task` runs under the runtime state `model`: in the owner's active
/// lease session when there is one, in the fallback session otherwise; or, when the lease
/// could not be read, a failed record in the fallback session.
pub open spec fn is_task_plan(
    model: RuntimeStateModel,
    task: ScheduledTaskView,
    r: Result<TaskRunPlan, SchedulerTaskExecution>,
) -> bool {
    match r {
        Ok(p) => match model.sessions.get(task.global_user_id) {
            Some(lease) => p.session_id@ == lease.session_id && p.session_source
                == SchedulerSessionSource::ActiveLease && opt_str_view(p.lease_channel)
                == lease.channel && opt_str_view(p.lease_thread_id) == lease.thread_id,
            None => p.session_id@ == spec_fallback_session_id(task.global_user_id)
                && p.session_source == SchedulerSessionSource::Fallback && p.lease_channel is None
                && p.lease_thread_id is None,
        },
        Err(x) => x.task_id@ == task.task_id && x.global_user_id@ == task.global_user_id
            && x.session_id@ == spec_fallback_session_id(task.global_user_id) && x.session_source
            == SchedulerSessionSource::Fallback && (x.outcome matches SchedulerTickOutcome::Failed {
            error,
        } && exists|e: RuntimeStateServiceError| error@ == session_failure_message(e)),
    }
}

/// Whether `x` records the end of the planned task `p` whose turn ended with `turn_error`:
/// a failed plan is passed on as it is; otherwise the record names the task and its
/// session, and a failed turn fails the task.
pub open spec fn is_task_record(p: PlannedTask, turn_error: Option<String>, x: SchedulerTaskExecution) -> bool {
    match p.plan {
        Err(failed) => x == failed,
        Ok(plan) => x.task_id@ == p.task.task_id@ && x.global_user_id@ == p.task.global_user_id@
            && x.session_id@ == plan.session_id@ && x.session_source == plan.session_source && (
        turn_error matches Some(err) ==> (x.outcome matches SchedulerTickOutcome::Failed { error }
            && error@ == run_failure_message(p.task.task_id@, err@))),
    }
}

/// Whether the `i`-th record of a tick marked its task executed: the task was planned, its
/// turn succeeded, and it was reported executed.
pub open spec fn tick_marked(
    planned: Seq<PlannedTask>,
    turn_errors: Seq<Option<String>>,
    records: Seq<SchedulerTaskExecution>,
    i: int,
) -> bool {
    planned[i].plan is Ok && turn_errors[i] is None && records[i].outcome is Executed
}

/// Law: a tick's records follow the due listing of the state it was planned on, one per
/// due task and in due order: the planned tasks are exactly that listing, and each record
/// names its task and the task's owner.
pub proof fn lemma_tick_records_follow_due_listing(
    model: RuntimeStateModel,
    selects: spec_fn(ScheduledTaskView) -> bool,
    planned: Seq<PlannedTask>,
    turn_errors: Seq<Option<String>>,
    records: Seq<SchedulerTaskExecution>,
    due: Seq<ScheduledTaskView>,
)
    requires
        is_task_listing(model.tasks, selects, planned_task_views(planned)),
        forall|i: int| 0 <= i < planned.len() ==> #[trigger] is_task_plan(model, planned[i].task@, planned[i].plan),
        is_task_listing(model.tasks, selects, due),
        records.len() == planned.len(),
        turn_errors.len() == planned.len(),
        forall|i: int| 0 <= i < planned.len() ==> #[trigger] is_task_record(planned[i], turn_errors[i], records[i]),
    ensures
        records.len() == due.len(),
        forall|i: int|
            0 <= i < due.len() ==> #[trigger] records[i].task_id@ == due[i].task_id
                && records[i].global_user_id@ == due[i].global_user_id,
{
    crate::runtime_state::ports::lemma_task_listing_unique(
        model.tasks,
        selects,
        planned_task_views(planned),
        due,
    );
    assert forall|i: int| 0 <= i < due.len() implies #[trigger] records[i].task_id@ == due[i].task_id
        && records[i].global_user_id@ == due[i].global_user_id by {
        assert(planned_task_views(planned)[i] == planned[i].task@);
        assert(is_task_plan(model, planned[i].task@, planned[i].plan));
        assert(is_task_record(planned[i], turn_errors[i], records[i]));
    }
}

/// Stateless scheduler tick executor.
#[derive(Debug, Default, Clone, Copy)]
pub struct SchedulerTickExecutor;

/// The session id used when a task's owner has no active lease (`scheduled-{global_user_id}`).
pub open spec fn spec_fallback_session_id(global_user_id: Seq<char>) -> Seq<char> {
    "scheduled-"@ + global_user_id
}

/// The channel a task's answer goes to: the lease's channel, when the task names no
/// channel or names that same one.
pub open spec fn spec_delivery_channel(
    preferred_channel: Option<Seq<char>>,
    lease_channel: Option<Seq<char>>,
) -> Option<Seq<char>> {
    match (preferred_channel, lease_channel) {
        (Some(p), Some(a)) => if p == a {
            Some(a)
        } else {
            None
        },
        (None, Some(a)) => Some(a),
        _ => None,
    }
}

/// The view of an optional string slice.
pub open spec fn opt_slice_view(o: Option<&str>) -> Option<Seq<char>> {
    match o {
        Some(s) => Some(s@),
        None => None,
    }
}

/// Message of a task whose session could not be loaded.
pub open spec fn session_failure_message(e: RuntimeStateServiceError) -> Seq<char> {
    "failed to load active session: "@ + service_message(e)
}

/// Message of a task whose turn failed.
pub open spec fn run_failure_message(task_id: Seq<char>, error: Seq<char>) -> Seq<char> {
    "failed to run scheduled task '"@ + task_id + "': "@ + error
}

/// Message of a task that vanished before it could be marked executed.
pub open spec fn vanished_message(task_id: Seq<char>) -> Seq<char> {
    "task '"@ + task_id + "' disappeared before it could be marked executed"@
}

/// Message of a task that could not be marked executed.
pub open spec fn mark_failure_message(task_id: Seq<char>, e: RuntimeStateServiceError) -> Seq<
    char,
> {
    "failed to mark task '"@ + task_id + "' executed: "@ + service_message(e)
}

/// The session id used when a task's owner has no active lease.
pub fn fallback_session_id(global_user_id: &str) -> (r: String)
    ensures
        r@ == spec_fallback_session_id(global_user_id@),
{
    let mut out: Vec<char> = Vec::new();
    push_str(&mut out, "scheduled-");
    push_str(&mut out, global_user_id);
    string_from_chars(out.as_slice())
}

/// The channel a task's answer goes to.
pub fn delivery_channel<'a>(preferred_channel: Option<&'a str>, lease_channel: Option<&'a str>) -> (r:
    Option<&'a str>)
    ensures
        opt_slice_view(r) == spec_delivery_channel(
            opt_slice_view(preferred_channel),
            opt_slice_view(lease_channel),
        ),
{
    match (preferred_channel, lease_channel) {
        (Some(preferred), Some(active)) => if str_eq(preferred, active) {
            Some(active)
        } else {
            None
        },
        (Some(_), None) => None,
        (None, Some(active)) => Some(active),
        (None, None) => None,
    }
}

fn opt_as_str(o: &Option<String>) -> (r: Option<&str>)
    ensures
        opt_slice_view(r) == opt_str_view(*o),
{
    match o {
        Some(s) => Some(s.as_str()),
        None => None,
    }
}

impl SchedulerTickExecutor {
    /// Create a new executor.
    pub fn new() -> (r: Self) {
        SchedulerTickExecutor
    }

    /// Load the tasks due at `now_epoch_ms`, in due-task order.
    pub fn due_tasks<S: RuntimeStateStorePort>(
        &self,
        service: &RuntimeStateService<S>,
        now_epoch_ms: i64,
    ) -> (r: Result<Vec<ScheduledTask>, RuntimeStateServiceError>)
        requires
            service.inv(),
        ensures
            r matches Ok(v) ==> is_task_listing(
                service.model().tasks,
                |t: ScheduledTaskView| is_due(t, now_epoch_ms),
                views(v@),
            ),
            service.store_infallible() ==> r is Ok,
    {
        service.list_due_tasks(now_epoch_ms)
    }

    /// Pick the session a due task runs in: the owner's active lease when there is one,
    /// otherwise the fallback session. A failure to read the lease fails the task.
    pub fn plan_task<S: RuntimeStateStorePort>(
        &self,
        service: &RuntimeStateService<S>,
        task: &ScheduledTask,
    ) -> (r: Result<TaskRunPlan, SchedulerTaskExecution>)
        requires
            service.inv(),
        ensures
            is_task_plan(service.model(), task@, r),
            service.store_infallible() ==> r is Ok,
    {
        match service.get_active_session(task.global_user_id.as_str()) {
            Ok(Some(lease)) => Ok(
                TaskRunPlan {
                    session_id: lease.session_id,
                    session_source: SchedulerSessionSource::ActiveLease,
                    lease_channel: lease.channel,
                    lease_thread_id: lease.thread_id,
                },
            ),
            Ok(None) => Ok(
                TaskRunPlan {
                    session_id: fallback_session_id(task.global_user_id.as_str()),
                    session_source: SchedulerSessionSource::Fallback,
                    lease_channel: None,
                    lease_thread_id: None,
                },
            ),
            Err(e) => {
                let mut msg: Vec<char> = Vec::new();
                push_str(&mut msg, "failed to load active session: ");
                e.push_message(&mut msg);
                let error = string_from_chars(msg.as_slice());
                assert(error@ == session_failure_message(e));
                Err(
                    SchedulerTaskExecution {
                        task_id: task.task_id.clone(),
                        global_user_id: task.global_user_id.clone(),
                        session_id: fallback_session_id(task.global_user_id.as_str()),
                        session_source: SchedulerSessionSource::Fallback,
                        outcome: SchedulerTickOutcome::Failed { error },
                    },
                )
            },
        }
    }

    /// The channel and thread a task's answer is posted to, when the delivery channel
    /// and the lease's thread are both known.
    pub fn delivery_target(&self, task: &ScheduledTask, plan: &TaskRunPlan) -> (r: Option<
        (String, String),
    >)
        ensures
            match (
                spec_delivery_channel(opt_str_view(task.channel), opt_str_view(plan.lease_channel)),
                opt_str_view(plan.lease_thread_id),
            ) {
                (Some(c), Some(t)) => r matches Some(target) && target.0@ == c && target.1@ == t,
                _ => r is None,
            },
    {
        let channel = delivery_channel(opt_as_str(&task.channel), opt_as_str(&plan.lease_channel));
        match (channel, &plan.lease_thread_id) {
            (Some(c), Some(t)) => Some((String::from_str(c), t.clone())),
            _ => None,
        }
    }

    /// Record the end of a task: a failed turn fails the task; a successful turn marks
    /// the task executed at `now_epoch_ms`, which fails the task when it has vanished
    /// from storage or cannot be stored.
    pub fn finish_task<S: RuntimeStateStorePort>(
        &self,
        service: &mut RuntimeStateService<S>,
        task: &ScheduledTask,
        plan: TaskRunPlan,
        turn_error: Option<String>,
        now_epoch_ms: i64,
    ) -> (r: SchedulerTaskExecution)
        requires
            old(service).inv(),
            old(service).model().tasks.contains_key(task.task_id@) ==> old(service).model().tasks[task.task_id@].schedule.next_run_fits(
                now_epoch_ms,
            ),
        ensures
            final(service).inv(),
            final(service).store_infallible() == old(service).store_infallible(),
            r.task_id@ == task.task_id@,
            r.global_user_id@ == task.global_user_id@,
            r.session_id@ == plan.session_id@,
            r.session_source == plan.session_source,
            turn_error matches Some(err) ==> (r.outcome matches SchedulerTickOutcome::Failed { error }
                && error@ == run_failure_message(task.task_id@, err@)) && final(service).model()
                == old(service).model(),
            turn_error is None ==> (r.outcome is Executed ==> old(service).model().tasks.contains_key(
                task.task_id@,
            ) && exists|next: i64|
                old(service).model().tasks[task.task_id@].schedule.is_next_run(
                    now_epoch_ms as int,
                    next as int,
                ) && final(service).model() == old(service).model().with_task(
                    #[trigger] executed_task(old(service).model().tasks[task.task_id@], now_epoch_ms, next),
                )),
            turn_error is None && old(service).store_infallible() ==> (r.outcome is Executed
                <==> old(service).model().tasks.contains_key(task.task_id@)),
            turn_error is None && old(service).store_infallible() && !old(service).model().tasks.contains_key(
                task.task_id@,
            ) ==> (r.outcome matches SchedulerTickOutcome::Failed { error } && error@
                == vanished_message(task.task_id@)),
            turn_error is None && !old(service).model().tasks.contains_key(task.task_id@) ==> (
            r.outcome matches SchedulerTickOutcome::Failed { error } && (error@ == vanished_message(
                task.task_id@,
            ) || exists|e: RuntimeStateServiceError|
                error@ == mark_failure_message(task.task_id@, e))),
            turn_error is None && r.outcome is Failed ==> (r.outcome matches SchedulerTickOutcome::Failed { error }
                && (error@ == vanished_message(task.task_id@) || exists|e: RuntimeStateServiceError|
                error@ == mark_failure_message(task.task_id@, e))),
            r.outcome is Failed ==> final(service).model() == old(service).model(),
    {
        let outcome = match turn_error {
            Some(err) => {
                let mut msg: Vec<char> = Vec::new();
                push_str(&mut msg, "failed to run scheduled task '");
                push_str(&mut msg, task.task_id.as_str());
                push_str(&mut msg, "': ");
                push_str(&mut msg, err.as_str());
                let error = string_from_chars(msg.as_slice());
                assert(error@ =~= run_failure_message(task.task_id@, err@));
                SchedulerTickOutcome::Failed { error }
            },
            None => {
                match service.mark_task_executed(task.task_id.as_str(), now_epoch_ms) {
                    Ok(Some(t)) => {
                        assert(final(service).model() == old(service).model().with_task(
                            executed_task(
                                old(service).model().tasks[task.task_id@],
                                now_epoch_ms,
                                t.next_run_epoch_ms,
                            ),
                        ));
                        SchedulerTickOutcome::Executed
                    },
                    Ok(None) => {
                        let mut msg: Vec<char> = Vec::new();
                        push_str(&mut msg, "task '");
                        push_str(&mut msg, task.task_id.as_str());
                        push_str(&mut msg, "' disappeared before it could be marked executed");
                        let error = string_from_chars(msg.as_slice());
                        assert(error@ =~= vanished_message(task.task_id@));
                        SchedulerTickOutcome::Failed { error }
                    },
                    Err(e) => {
                        let mut msg: Vec<char> = Vec::new();
                        push_str(&mut msg, "failed to mark task '");
                        push_str(&mut msg, task.task_id.as_str());
                        push_str(&mut msg, "' executed: ");
                        e.push_message(&mut msg);
                        let error = string_from_chars(msg.as_slice());
                        assert(error@ =~= mark_failure_message(task.task_id@, e));
                        SchedulerTickOutcome::Failed { error }
                    },
                }
            },
        };
        SchedulerTaskExecution {
            task_id: task.task_id.clone(),
            global_user_id: task.global_user_id.clone(),
            session_id: plan.session_id,
            session_source: plan.session_source,
            outcome,
        }
    }

    /// Summarize one tick.
    pub fn report(
        &self,
        now_epoch_ms: i64,
        due_task_count: usize,
        executions: Vec<SchedulerTaskExecution>,
    ) -> (r: SchedulerTickReport)
        ensures
            r.now_epoch_ms == now_epoch_ms,
            r.due_task_count == due_task_count,
            r.executions@ == executions@,
    {
        SchedulerTickReport { now_epoch_ms, due_task_count, executions }
    }

    /// The first half of a tick: the tasks due at `now_epoch_ms`, in due order, each with
    /// how it runs. The turns themselves are the caller's to run.
    pub fn plan_tick<S: RuntimeStateStorePort>(
        &self,
        service: &RuntimeStateService<S>,
        now_epoch_ms: i64,
    ) -> (r: Result<Vec<PlannedTask>, RuntimeStateServiceError>)
        requires
            service.inv(),
        ensures
            r matches Ok(v) ==> is_task_listing(
                service.model().tasks,
                |t: ScheduledTaskView| is_due(t, now_epoch_ms),
                planned_task_views(v@),
            ) && forall|i: int|
                0 <= i < v.len() ==> #[trigger] is_task_plan(service.model(), v[i].task@, v[i].plan),
            r matches Err(e) ==> e is Store,
            service.store_infallible() ==> (r matches Ok(v) && forall|i: int|
                0 <= i < v.len() ==> #[trigger] v[i].plan is Ok),
    {
        let due = match service.list_due_tasks(now_epoch_ms) {
            Ok(d) => d,
            Err(e) => return Err(e),
        };
        let mut out: Vec<PlannedTask> = Vec::new();
        let mut i: usize = 0;
        while i < due.len()
            invariant
                service.inv(),
                i <= due.len(),
                out.len() == i,
                forall|j: int| 0 <= j < i ==> #[trigger] out[j].task@ == due[j]@,
                forall|j: int|
                    0 <= j < i ==> #[trigger] is_task_plan(service.model(), out[j].task@, out[j].plan),
                service.store_infallible() ==> forall|j: int| 0 <= j < i ==> #[trigger] out[j].plan is Ok,
            decreases due.len() - i,
        {
            let task = due[i].duplicate();
            let plan = self.plan_task(service, &task);
            out.push(PlannedTask { task, plan });
            i = i + 1;
        }
        assert(planned_task_views(out@) =~= views(due@));
        Ok(out)
    }

    /// The second half of a tick: one execution record per planned task, in the same
    /// order, given how each task's turn ended (`turn_errors[i]` for `planned[i]`). Each
    /// task whose turn succeeded is marked executed at `now_epoch_ms`, which moves its next
    /// run on; every other task stays as it was. On a store that never fails, every such
    /// task still stored is reported executed.
    pub fn finish_tick<S: RuntimeStateStorePort>(
        &self,
        service: &mut RuntimeStateService<S>,
        now_epoch_ms: i64,
        planned: Vec<PlannedTask>,
        turn_errors: Vec<Option<String>>,
    ) -> (r: SchedulerTickReport)
        requires
            old(service).inv(),
            planned.len() == turn_errors.len(),
            forall|i: int|
                0 <= i < planned.len() && old(service).model().tasks.contains_key(
                    #[trigger] planned[i].task.task_id@,
                ) ==> old(service).model().tasks[planned[i].task.task_id@].schedule.next_run_fits(
                    now_epoch_ms,
                ),
        ensures
            final(service).inv(),
            final(service).store_infallible() == old(service).store_infallible(),
            r.now_epoch_ms == now_epoch_ms,
            r.due_task_count == planned.len(),
            r.executions.len() == planned.len(),
            forall|i: int|
                0 <= i < planned.len() ==> #[trigger] is_task_record(
                    planned[i],
                    turn_errors[i],
                    r.executions[i],
                ),
            old(service).store_infallible() ==> forall|i: int|
                0 <= i < planned.len() && planned[i].plan is Ok && turn_errors[i] is None
                    && old(service).model().tasks.contains_key(planned[i].task.task_id@)
                    ==> #[trigger] r.executions[i].outcome is Executed,
            forall|k: Seq<char>|
                #[trigger] old(service).model().tasks.contains_key(k) <==> final(service).model().tasks.contains_key(k),
            forall|i: int|
                0 <= i < planned.len() && #[trigger] tick_marked(
                    planned@,
                    turn_errors@,
                    r.executions@,
                    i,
                ) ==> old(service).model().tasks.contains_key(planned[i].task.task_id@)
                    && exists|next: i64|
                    old(service).model().tasks[planned[i].task.task_id@].schedule.is_next_run(
                        now_epoch_ms as int,
                        next as int,
                    ) && final(service).model().tasks[planned[i].task.task_id@]
                        == #[trigger] executed_task(
                        old(service).model().tasks[planned[i].task.task_id@],
                        now_epoch_ms,
                        next,
                    ),
            forall|k: Seq<char>|
                #[trigger] old(service).model().tasks.contains_key(k) && (forall|i: int|
                    0 <= i < planned.len() && #[trigger] tick_marked(
                        planned@,
                        turn_errors@,
                        r.executions@,
                        i,
                    ) ==> planned[i].task.task_id@ != k) ==> final(service).model().tasks[k]
                    == old(service).model().tasks[k],
    {
        let ghost m0 = service.model();
        let ghost ps = planned@;
        let ghost es = turn_errors@;
        let count = planned.len();
        let mut rest = planned;
        let mut executions: Vec<SchedulerTaskExecution> = Vec::new();
        let mut i: usize = 0;
        while i < count
            invariant
                service.inv(),
                service.store_infallible() == old(service).store_infallible(),
                m0 == old(service).model(),
                count == ps.len(),
                es.len() == ps.len(),
                es == turn_errors@,
                i <= count,
                rest@ == ps.subrange(i as int, ps.len() as int),
                executions.len() == i,
                forall|k: Seq<char>|
                    #[trigger] m0.tasks.contains_key(k) <==> service.model().tasks.contains_key(k),
                forall|k: Seq<char>|
                    #[trigger] m0.tasks.contains_key(k) ==> service.model().tasks[k].schedule
                        == m0.tasks[k].schedule,
                forall|j: int|
                    0 <= j < ps.len() && m0.tasks.contains_key(#[trigger] ps[j].task.task_id@)
                        ==> m0.tasks[ps[j].task.task_id@].schedule.next_run_fits(now_epoch_ms),
                forall|j: int| 0 <= j < i ==> #[trigger] is_task_record(ps[j], es[j], executions[j]),
                service.store_infallible() ==> forall|j: int|
                    0 <= j < i && ps[j].plan is Ok && es[j] is None && m0.tasks.contains_key(
                        ps[j].task.task_id@,
                    ) ==> #[trigger] executions[j].outcome is Executed,
                forall|j: int|
                    0 <= j < i && #[trigger] tick_marked(ps, es, executions@, j) ==> m0.tasks.contains_key(
                        ps[j].task.task_id@,
                    ) && exists|next: i64|
                        m0.tasks[ps[j].task.task_id@].schedule.is_next_run(
                            now_epoch_ms as int,
                            next as int,
                        ) && service.model().tasks[ps[j].task.task_id@] == #[trigger] executed_task(
                            m0.tasks[ps[j].task.task_id@],
                            now_epoch_ms,
                            next,
                        ),
                forall|k: Seq<char>|
                    #[trigger] m0.tasks.contains_key(k) && (forall|j: int|
                        0 <= j < i && #[trigger] tick_marked(ps, es, executions@, j)
                            ==> ps[j].task.task_id@ != k) ==> service.model().tasks[k]
                        == m0.tasks[k],
            decreases count - i,
        {
            let item = rest.remove(0);
            assert(item == ps[i as int]);
            let turn_error = match &turn_errors[i] {
                Some(e) => Some(e.clone()),
                None => None,
            };
            assert(turn_error is None <==> es[i as int] is None);
            let ghost before = service.model();
            let ghost old_execs = executions@;
            proof {
                service.lemma_tasks_keyed();
            }
            let PlannedTask { task, plan } = item;
            let ghost id = task.task_id@;
            assert(id == ps[i as int].task.task_id@);
            let ghost marked_now: bool;
            match plan {
                Err(failed) => {
                    executions.push(failed);
                    proof {
                        marked_now = false;
                    }
                },
                Ok(p) => {
                    let x = self.finish_task(service, &task, p, turn_error, now_epoch_ms);
                    proof {
                        if x.outcome is Executed {
                            let next = choose|next: i64|
                                before.tasks[id].schedule.is_next_run(now_epoch_ms as int, next as int)
                                    && service.model() == before.with_task(
                                    #[trigger] executed_task(before.tasks[id], now_epoch_ms, next),
                                );
                            let nt = executed_task(before.tasks[id], now_epoch_ms, next);
                            assert(before.tasks[id].task_id == id);
                            assert(service.model().tasks == before.tasks.insert(id, nt));
                            assert(m0.tasks.contains_key(id));
                            assert(nt == executed_task(m0.tasks[id], now_epoch_ms, next));
                            assert(m0.tasks[id].schedule.is_next_run(now_epoch_ms as int, next as int));
                            marked_now = true;
                        } else {
                            assert(service.model() == before);
                            marked_now = false;
                        }
                    }
                    executions.push(x);
                },
            }
            proof {
                assert forall|j: int| 0 <= j < i implies executions@[j] == old_execs[j] by {}
                assert(tick_marked(ps, es, executions@, i as int) == marked_now);
                assert forall|j: int| 0 <= j < i + 1 implies #[trigger] is_task_record(
                    ps[j],
                    es[j],
                    executions[j],
                ) by {
                    if j < i {
                        assert(executions@[j] == old_execs[j]);
                    }
                }
                assert forall|k: Seq<char>| #[trigger] m0.tasks.contains_key(k) implies service.model().tasks.contains_key(k)
                    && service.model().tasks[k].schedule == m0.tasks[k].schedule by {
                    assert(before.tasks.contains_key(k));
                }
                assert forall|k: Seq<char>| #[trigger] service.model().tasks.contains_key(k) implies m0.tasks.contains_key(k) by {
                    if k != id {
                        assert(before.tasks.contains_key(k));
                    }
                }
                assert forall|j: int|
                    0 <= j < i + 1 && #[trigger] tick_marked(ps, es, executions@, j) implies m0.tasks.contains_key(
                        ps[j].task.task_id@,
                    ) && exists|next: i64|
                        m0.tasks[ps[j].task.task_id@].schedule.is_next_run(
                            now_epoch_ms as int,
                            next as int,
                        ) && service.model().tasks[ps[j].task.task_id@] == #[trigger] executed_task(
                            m0.tasks[ps[j].task.task_id@],
                            now_epoch_ms,
                            next,
                        ) by {
                    if j < i {
                        assert(tick_marked(ps, es, old_execs, j));
                        let kj = ps[j].task.task_id@;
                        let n1 = choose|next: i64|
                            m0.tasks[kj].schedule.is_next_run(now_epoch_ms as int, next as int)
                                && before.tasks[kj] == #[trigger] executed_task(m0.tasks[kj], now_epoch_ms, next);
                        if kj != id || !marked_now {
                            assert(service.model().tasks[kj] == before.tasks[kj]);
                            assert(service.model().tasks[kj] == executed_task(m0.tasks[kj], now_epoch_ms, n1));
                        }
                    }
                }
                assert forall|k: Seq<char>|
                    #[trigger] m0.tasks.contains_key(k) && (forall|j: int|
                        0 <= j < i + 1 && #[trigger] tick_marked(ps, es, executions@, j)
                            ==> ps[j].task.task_id@ != k) implies service.model().tasks[k]
                        == m0.tasks[k] by {
                    assert forall|j: int| 0 <= j < i && #[trigger] tick_marked(ps, es, old_execs, j)
                        implies ps[j].task.task_id@ != k by {
                        assert(tick_marked(ps, es, executions@, j));
                    }
                    if marked_now {
                        assert(tick_marked(ps, es, executions@, i as int));
                        assert(k != id);
                    }
                }
            }
            i = i + 1;
        }
        proof {
            assert(ps == planned@);
        }
        SchedulerTickReport { now_epoch_ms, due_task_count: count, executions }
    }
}

/// Shortest interval between scheduler ticks, in milliseconds.
pub const MIN_POLL_INTERVAL_MS: u64 = 1000;

/// The interval between scheduler ticks: the configured one, but at least a second.
pub fn effective_poll_interval_ms(configured_ms: u64) -> (r: u64)
    ensures
        r == (if configured_ms < MIN_POLL_INTERVAL_MS {
            MIN_POLL_INTERVAL_MS
        } else {
            configured_ms
        }),
{
    if configured_ms < MIN_POLL_INTERVAL_MS {
        MIN_POLL_INTERVAL_MS
    } else {
        configured_ms
    }
}

} // verus!
