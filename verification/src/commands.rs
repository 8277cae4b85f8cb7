//! The command-line commands: schedules from flags, bind tokens, scheduled-task listing
//! and orchestration requests. Reading arguments and printing lines is left to the caller.
use vstd::prelude::*;

use crate::clock::current_time_millis;
use crate::identity::IdentityResolver;
use crate::keyed::views;
use crate::orchestration::{Orchestrator, WorkerTask};
use crate::runtime_state::domain::{
    lemma_next_run_fits_below_bound, opt_str_to_string, BindToken, ScheduleKind, ScheduledTask,
    ScheduledTaskView, MAX_NEXT_RUN_ADVANCE_MS,
};
use crate::runtime_state::ports::{any_task, is_task_listing, RuntimeStateStorePort};
use crate::runtime_state::service::{issued_token, opt_str_slice_view, RuntimeStateService};
use crate::runtime_state::error::{
    service_message, validation_message, RuntimeStateServiceError, RuntimeStateValidationError,
};
use crate::text::{
    decimal, push_decimal, push_signed_decimal, push_str, push_zero_padded, signed_decimal,
    str_to_string, string_from_chars, trim, zero_padded,
};

verus! {

/// Failures of the commands.
#[derive(Debug)]
pub enum CommandError {
    /// Not exactly one schedule mode was chosen.
    AmbiguousScheduleMode,
    /// A daily schedule lacks its hour or its minute.
    IncompleteDailySchedule,
    /// The chosen schedule failed validation.
    InvalidSchedule(RuntimeStateValidationError),
    /// A bind-token lifetime in minutes does not fit an `i64`.
    TtlTooLarge,
    /// Orchestration was asked for without an orchestrator.
    OrchestrationUnavailable,
    /// Worker arguments did not come in `<profile> <prompt>` pairs.
    UnpairedWorkerArguments,
    /// The clock reads a time so late that the task's next run cannot be represented.
    ClockOutOfRange,
    /// The runtime-state service failed.
    Service(RuntimeStateServiceError),
}

/// The human-readable text of a command error.
pub open spec fn command_message(e: CommandError) -> Seq<char> {
    match e {
        CommandError::AmbiguousScheduleMode => "choose exactly one schedule mode: --every-minutes, --hourly-minute, or --daily-hour/--daily-minute"@,
        CommandError::IncompleteDailySchedule => "daily schedules require both --daily-hour and --daily-minute"@,
        CommandError::InvalidSchedule(v) => validation_message(v),
        CommandError::TtlTooLarge => "ttl_minutes is too large"@,
        CommandError::OrchestrationUnavailable => "orchestration is only available when agent.backend = \"acp\""@,
        CommandError::UnpairedWorkerArguments => "worker arguments must be provided as repeated <profile> <prompt> pairs"@,
        CommandError::ClockOutOfRange => "the system clock reads a time too late to schedule from"@,
        CommandError::Service(s) => service_message(s),
    }
}

impl CommandError {
    /// The human-readable text of this error.
    pub fn message(&self) -> (r: String)
        ensures
            r@ == command_message(*self),
    {
        let mut out: Vec<char> = Vec::new();
        match self {
            CommandError::AmbiguousScheduleMode => push_str(
                &mut out,
                "choose exactly one schedule mode: --every-minutes, --hourly-minute, or --daily-hour/--daily-minute",
            ),
            CommandError::IncompleteDailySchedule => push_str(
                &mut out,
                "daily schedules require both --daily-hour and --daily-minute",
            ),
            CommandError::InvalidSchedule(v) => v.push_message(&mut out),
            CommandError::TtlTooLarge => push_str(&mut out, "ttl_minutes is too large"),
            CommandError::OrchestrationUnavailable => push_str(
                &mut out,
                "orchestration is only available when agent.backend = \"acp\"",
            ),
            CommandError::UnpairedWorkerArguments => push_str(
                &mut out,
                "worker arguments must be provided as repeated <profile> <prompt> pairs",
            ),
            CommandError::ClockOutOfRange => push_str(
                &mut out,
                "the system clock reads a time too late to schedule from",
            ),
            CommandError::Service(s) => s.push_message(&mut out),
        }
        assert(out@ =~= command_message(*self));
        string_from_chars(out.as_slice())
    }
}

/// A schedule that passed validation, or the validation error.
pub open spec fn validated(k: ScheduleKind) -> Result<ScheduleKind, CommandError> {
    match k.spec_validate() {
        Ok(()) => Ok(k),
        Err(v) => Err(CommandError::InvalidSchedule(v)),
    }
}

/// How many schedule modes the flags choose: an interval, an hourly minute, and a daily
/// time (by either of its two flags).
pub open spec fn chosen_modes(
    every_minutes: Option<u32>,
    hourly_minute: Option<u8>,
    daily_hour: Option<u8>,
    daily_minute: Option<u8>,
) -> int {
    (if every_minutes is Some { 1int } else { 0int }) + (if hourly_minute is Some { 1int } else { 0int })
        + (if daily_hour is Some || daily_minute is Some { 1int } else { 0int })
}

/// The schedule the flags describe: exactly one mode must be chosen, a daily time needs
/// both its hour and its minute, and the schedule must validate.
pub open spec fn spec_build_schedule_kind(
    every_minutes: Option<u32>,
    hourly_minute: Option<u8>,
    daily_hour: Option<u8>,
    daily_minute: Option<u8>,
) -> Result<ScheduleKind, CommandError> {
    if chosen_modes(every_minutes, hourly_minute, daily_hour, daily_minute) != 1 {
        Err(CommandError::AmbiguousScheduleMode)
    } else if every_minutes is Some {
        validated(ScheduleKind::EveryMinutes(every_minutes->0))
    } else if hourly_minute is Some {
        validated(ScheduleKind::Hourly { minute: hourly_minute->0 })
    } else if daily_hour is Some && daily_minute is Some {
        validated(ScheduleKind::DailyAt { hour: daily_hour->0, minute: daily_minute->0 })
    } else {
        Err(CommandError::IncompleteDailySchedule)
    }
}

/// Build a schedule kind from mutually exclusive command-line flags.
pub fn build_schedule_kind(
    every_minutes: Option<u32>,
    hourly_minute: Option<u8>,
    daily_hour: Option<u8>,
    daily_minute: Option<u8>,
) -> (r: Result<ScheduleKind, CommandError>)
    ensures
        r == spec_build_schedule_kind(every_minutes, hourly_minute, daily_hour, daily_minute),
{
    let mut selected_modes: u8 = 0;
    if every_minutes.is_some() {
        selected_modes = selected_modes + 1;
    }
    if hourly_minute.is_some() {
        selected_modes = selected_modes + 1;
    }
    if daily_hour.is_some() || daily_minute.is_some() {
        selected_modes = selected_modes + 1;
    }
    if selected_modes != 1 {
        return Err(CommandError::AmbiguousScheduleMode);
    }
    if let Some(minutes) = every_minutes {
        let schedule = ScheduleKind::EveryMinutes(minutes);
        return match schedule.validate() {
            Ok(()) => Ok(schedule),
            Err(v) => Err(CommandError::InvalidSchedule(v)),
        };
    }
    if let Some(minute) = hourly_minute {
        let schedule = ScheduleKind::Hourly { minute };
        return match schedule.validate() {
            Ok(()) => Ok(schedule),
            Err(v) => Err(CommandError::InvalidSchedule(v)),
        };
    }
    match (daily_hour, daily_minute) {
        (Some(hour), Some(minute)) => {
            let schedule = ScheduleKind::DailyAt { hour, minute };
            match schedule.validate() {
                Ok(()) => Ok(schedule),
                Err(v) => Err(CommandError::InvalidSchedule(v)),
            }
        },
        _ => Err(CommandError::IncompleteDailySchedule),
    }
}

/// Law: a schedule built from command-line flags always passes validation, and comes
/// from exactly one of the three modes.
pub proof fn lemma_built_schedule_is_valid(
    every_minutes: Option<u32>,
    hourly_minute: Option<u8>,
    daily_hour: Option<u8>,
    daily_minute: Option<u8>,
)
    ensures
        spec_build_schedule_kind(every_minutes, hourly_minute, daily_hour, daily_minute) matches Ok(k)
            ==> k.spec_validate() is Ok && chosen_modes(
            every_minutes,
            hourly_minute,
            daily_hour,
            daily_minute,
        ) == 1,
{
}

/// The label of a schedule in listings: `every_<n>_minutes`, `hourly_at_<mm>` or
/// `daily_at_<hh>:<mm>`, with hours and minutes in two digits.
pub open spec fn spec_render_schedule(schedule: ScheduleKind) -> Seq<char> {
    match schedule {
        ScheduleKind::EveryMinutes(minutes) => "every_"@ + decimal(minutes as nat) + "_minutes"@,
        ScheduleKind::Hourly { minute } => "hourly_at_"@ + zero_padded(decimal(minute as nat), 2),
        ScheduleKind::DailyAt { hour, minute } => "daily_at_"@ + zero_padded(decimal(hour as nat), 2)
            + ":"@ + zero_padded(decimal(minute as nat), 2),
    }
}

/// Appends the label of a schedule.
pub fn push_schedule_label(out: &mut Vec<char>, schedule: &ScheduleKind)
    ensures
        final(out)@ == old(out)@ + spec_render_schedule(*schedule),
{
    match schedule {
        ScheduleKind::EveryMinutes(minutes) => {
            push_str(out, "every_");
            push_decimal(out, *minutes as u64);
            push_str(out, "_minutes");
        },
        ScheduleKind::Hourly { minute } => {
            push_str(out, "hourly_at_");
            push_zero_padded(out, *minute as u64, 2);
        },
        ScheduleKind::DailyAt { hour, minute } => {
            push_str(out, "daily_at_");
            push_zero_padded(out, *hour as u64, 2);
            push_str(out, ":");
            push_zero_padded(out, *minute as u64, 2);
        },
    }
    assert(final(out)@ =~= old(out)@ + spec_render_schedule(*schedule));
}

/// The label of a schedule in listings.
pub fn render_schedule(schedule: &ScheduleKind) -> (r: String)
    ensures
        r@ == spec_render_schedule(*schedule),
{
    let mut out: Vec<char> = Vec::new();
    push_schedule_label(&mut out, schedule);
    assert(out@ =~= spec_render_schedule(*schedule));
    string_from_chars(out.as_slice())
}

/// Milliseconds in one minute.
pub const MINUTE_IN_MS: i64 = 60000;

/// A lifetime in minutes as milliseconds, saturating at `i64::MAX`.
pub open spec fn spec_ttl_ms(ttl_minutes: int) -> i64 {
    if ttl_minutes * 60000 > i64::MAX {
        i64::MAX
    } else {
        (ttl_minutes * 60000) as i64
    }
}

/// A bind-token lifetime in minutes as milliseconds: refused when the minutes do not
/// fit an `i64`, saturating at `i64::MAX` otherwise.
pub fn ttl_ms_from_minutes(ttl_minutes: u64) -> (r: Result<i64, CommandError>)
    ensures
        ttl_minutes > i64::MAX ==> r matches Err(CommandError::TtlTooLarge),
        ttl_minutes <= i64::MAX ==> r == Ok::<i64, CommandError>(spec_ttl_ms(ttl_minutes as int)),
{
    if ttl_minutes > 9223372036854775807u64 {
        return Err(CommandError::TtlTooLarge);
    }
    let minutes = ttl_minutes as i64;
    if minutes > i64::MAX / MINUTE_IN_MS {
        Ok(i64::MAX)
    } else {
        Ok(minutes * MINUTE_IN_MS)
    }
}

/// Pair repeated `<profile> <prompt>` worker arguments in order.
pub open spec fn spec_worker_pairs(workers: Seq<String>) -> Seq<(Seq<char>, Seq<char>)> {
    Seq::new(workers.len() / 2, |i: int| (workers[2 * i]@, workers[2 * i + 1]@))
}

/// Pair repeated `<profile> <prompt>` worker arguments, refusing an odd count.
pub fn pair_worker_specs(workers: Vec<String>) -> (r: Result<Vec<(String, String)>, CommandError>)
    ensures
        workers.len() % 2 == 1 ==> r matches Err(CommandError::UnpairedWorkerArguments),
        workers.len() % 2 == 0 ==> (r matches Ok(pairs) && pairs.len() == workers.len() / 2
            && (forall|i: int|
            0 <= i < pairs.len() ==> #[trigger] pairs[i].0@ == spec_worker_pairs(workers@)[i].0
                && pairs[i].1@ == spec_worker_pairs(workers@)[i].1)),
{
    if workers.len() % 2 != 0 {
        return Err(CommandError::UnpairedWorkerArguments);
    }
    let mut pairs: Vec<(String, String)> = Vec::new();
    let mut i: usize = 0;
    while i < workers.len() / 2
        invariant
            workers.len() % 2 == 0,
            i <= workers.len() / 2,
            pairs.len() == i,
            forall|j: int|
                0 <= j < i ==> #[trigger] pairs[j].0@ == workers@[2 * j]@ && pairs[j].1@ == workers@[2
                    * j + 1]@,
        decreases workers.len() / 2 - i,
    {
        let profile = workers[2 * i].clone();
        let prompt = workers[2 * i + 1].clone();
        pairs.push((profile, prompt));
        i = i + 1;
    }
    assert forall|i: int| 0 <= i < pairs.len() implies #[trigger] pairs[i].0@ == spec_worker_pairs(
        workers@,
    )[i].0 && pairs[i].1@ == spec_worker_pairs(workers@)[i].1 by {
        assert(spec_worker_pairs(workers@)[i] == (workers@[2 * i]@, workers@[2 * i + 1]@));
    }
    Ok(pairs)
}

/// Issue a one-time bind token whose lifetime is given in minutes.
pub fn cmd_issue_bind_token<S: RuntimeStateStorePort>(
    resolver: &mut IdentityResolver<S>,
    global_user_id: &str,
    provider: Option<&str>,
    ttl_minutes: u64,
) -> (r: Result<BindToken, CommandError>)
    requires
        old(resolver).inv(),
    ensures
        final(resolver).inv(),
        ttl_minutes > i64::MAX ==> r matches Err(CommandError::TtlTooLarge),
        ttl_minutes == 0 ==> r matches Err(
            CommandError::Service(
                RuntimeStateServiceError::Validation(RuntimeStateValidationError::InvalidBindTokenTtl),
            ),
        ),
        r is Err ==> final(resolver).model() == old(resolver).model(),
        r matches Ok(t) ==> 0 < ttl_minutes <= i64::MAX && t@ == issued_token(
            global_user_id@,
            opt_str_slice_view(provider),
            spec_ttl_ms(ttl_minutes as int),
            t.created_at_epoch_ms,
            old(resolver).service_counter(),
        ) && final(resolver).model() == old(resolver).model().with_token(t@),
{
    let ttl_ms = ttl_ms_from_minutes(ttl_minutes)?;
    match resolver.issue_bind_token(global_user_id, provider, ttl_ms) {
        Ok(t) => Ok(t),
        Err(e) => Err(CommandError::Service(e)),
    }
}

/// The identifier of a task scheduled at `now_ms` as the `counter`-th of the process:
/// `task-<now_ms>-<counter>`, the counter in at least four digits.
pub open spec fn task_id_text(now_ms: i64, counter: u64) -> Seq<char> {
    "task-"@ + signed_decimal(now_ms as int) + "-"@ + zero_padded(decimal(counter as nat), 4)
}

/// A newly scheduled task: enabled, never run, first due at `next_run`.
pub open spec fn new_task_view(
    task_id: Seq<char>,
    global_user_id: Seq<char>,
    channel: Option<Seq<char>>,
    prompt: Seq<char>,
    schedule: ScheduleKind,
    next_run: i64,
) -> ScheduledTaskView {
    ScheduledTaskView {
        task_id,
        global_user_id,
        channel,
        prompt,
        schedule,
        next_run_epoch_ms: next_run,
        enabled: true,
        last_run_epoch_ms: None,
    }
}

/// Why a new task with this prompt and schedule is refused, if it is: a blank prompt
/// first, then the schedule's own check.
pub open spec fn new_task_validation(prompt: Seq<char>, schedule: ScheduleKind) -> Result<
    (),
    RuntimeStateValidationError,
> {
    if trim(prompt).len() == 0 {
        Err(RuntimeStateValidationError::EmptyTaskPrompt)
    } else {
        schedule.spec_validate()
    }
}

/// The task that scheduling at `now_ms` as the `counter`-th task of the process creates.
pub fn new_scheduled_task(
    now_ms: i64,
    counter: u64,
    global_user_id: &str,
    channel: Option<&str>,
    prompt: &str,
    schedule: ScheduleKind,
) -> (r: ScheduledTask)
    requires
        schedule.next_run_fits(now_ms),
    ensures
        r@ == new_task_view(
            task_id_text(now_ms, counter),
            global_user_id@,
            opt_str_slice_view(channel),
            prompt@,
            schedule,
            r.next_run_epoch_ms,
        ),
        schedule.is_next_run(now_ms as int, r.next_run_epoch_ms as int),
{
    let mut id: Vec<char> = Vec::new();
    push_str(&mut id, "task-");
    push_signed_decimal(&mut id, now_ms);
    push_str(&mut id, "-");
    push_zero_padded(&mut id, counter, 4);
    assert(id@ =~= task_id_text(now_ms, counter));
    ScheduledTask {
        task_id: string_from_chars(id.as_slice()),
        global_user_id: str_to_string(global_user_id),
        channel: opt_str_to_string(channel),
        prompt: str_to_string(prompt),
        schedule,
        next_run_epoch_ms: schedule.next_run_after(now_ms),
        enabled: true,
        last_run_epoch_ms: None,
    }
}

/// Create and store a scheduled task at the given time, as the `schedule_counter`-th of
/// the process; the counter moves on by one.
pub fn cmd_schedule_add_at<S: RuntimeStateStorePort>(
    service: &mut RuntimeStateService<S>,
    schedule_counter: &mut u64,
    now_ms: i64,
    global_user_id: &str,
    channel: Option<&str>,
    prompt: &str,
    schedule: ScheduleKind,
) -> (r: Result<ScheduledTask, CommandError>)
    requires
        old(service).inv(),
        schedule.next_run_fits(now_ms),
    ensures
        final(service).inv(),
        *final(schedule_counter) == (*old(schedule_counter)).wrapping_add(1),
        new_task_validation(prompt@, schedule) is Ok && old(service).store_infallible() ==> r is Ok,
        new_task_validation(prompt@, schedule) matches Err(v) ==> (r matches Err(
            CommandError::Service(RuntimeStateServiceError::Validation(w)),
        ) && w == v),
        r matches Ok(task) ==> task@ == new_task_view(
            task_id_text(now_ms, *old(schedule_counter)),
            global_user_id@,
            opt_str_slice_view(channel),
            prompt@,
            schedule,
            task.next_run_epoch_ms,
        ) && schedule.is_next_run(now_ms as int, task.next_run_epoch_ms as int) && final(service).model()
            == old(service).model().with_task(task@),
        new_task_validation(prompt@, schedule) is Ok && r is Err ==> (r matches Err(
            CommandError::Service(RuntimeStateServiceError::Store(_)),
        )),
        r is Err ==> final(service).model() == old(service).model(),
        final(service).store_infallible() == old(service).store_infallible(),
{
    let counter = *schedule_counter;
    *schedule_counter = counter.wrapping_add(1);
    let task = new_scheduled_task(now_ms, counter, global_user_id, channel, prompt, schedule);
    match service.insert_scheduled_task(task) {
        Ok(t) => Ok(t),
        Err(e) => Err(CommandError::Service(e)),
    }
}

/// Create and store a scheduled task stamped with the current time. When the clock reads
/// a time from which the schedule's next run cannot be represented, nothing is stored.
pub fn cmd_schedule_add<S: RuntimeStateStorePort>(
    service: &mut RuntimeStateService<S>,
    schedule_counter: &mut u64,
    global_user_id: &str,
    channel: Option<&str>,
    prompt: &str,
    schedule: ScheduleKind,
) -> (r: Result<ScheduledTask, CommandError>)
    requires
        old(service).inv(),
    ensures
        final(service).inv(),
        r is Err ==> final(service).model() == old(service).model(),
        r matches Ok(task) ==> task@.global_user_id == global_user_id@ && task@.channel
            == opt_str_slice_view(channel) && task@.prompt == prompt@ && task@.schedule == schedule
            && task@.enabled && task@.last_run_epoch_ms is None && final(service).model() == old(
            service,
        ).model().with_task(task@) && *final(schedule_counter) == (*old(
            schedule_counter,
        )).wrapping_add(1),
        trim(prompt@).len() == 0 ==> r is Err,
        schedule.spec_validate() is Err ==> r is Err,
        final(service).store_infallible() == old(service).store_infallible(),
        r matches Ok(task) ==> exists|now_ms: i64|
            task@ == #[trigger] new_task_view(
                task_id_text(now_ms, *old(schedule_counter)),
                global_user_id@,
                opt_str_slice_view(channel),
                prompt@,
                schedule,
                task.next_run_epoch_ms,
            ) && schedule.is_next_run(now_ms as int, task.next_run_epoch_ms as int),
        r matches Err(CommandError::ClockOutOfRange) ==> *final(schedule_counter) == *old(
            schedule_counter,
        ),
        !(r matches Err(CommandError::ClockOutOfRange)) ==> *final(schedule_counter) == (*old(
            schedule_counter,
        )).wrapping_add(1),
        r matches Err(e) ==> ({
            ||| e is ClockOutOfRange
            ||| (new_task_validation(prompt@, schedule) matches Err(v) && (e matches CommandError::Service(
                RuntimeStateServiceError::Validation(w),
            ) && w == v))
            ||| (new_task_validation(prompt@, schedule) is Ok && !old(service).store_infallible() && (
            e matches CommandError::Service(RuntimeStateServiceError::Store(_))))
        }),
        new_task_validation(prompt@, schedule) matches Err(v) ==> (r matches Err(e) && (e is ClockOutOfRange
            || (e matches CommandError::Service(RuntimeStateServiceError::Validation(w)) && w == v))),
        new_task_validation(prompt@, schedule) is Ok && old(service).store_infallible() ==> (r is Ok
            || r matches Err(CommandError::ClockOutOfRange)),
{
    let now_ms = current_time_millis();
    if now_ms > i64::MAX - MAX_NEXT_RUN_ADVANCE_MS {
        return Err(CommandError::ClockOutOfRange);
    }
    proof {
        lemma_next_run_fits_below_bound(schedule, now_ms);
    }
    cmd_schedule_add_at(service, schedule_counter, now_ms, global_user_id, channel, prompt, schedule)
}

/// One line of the task listing: id, owner, schedule label, next run time and
/// `enabled` or `disabled`, separated by tabs.
pub open spec fn spec_list_line(t: ScheduledTaskView) -> Seq<char> {
    t.task_id + "\t"@ + t.global_user_id + "\t"@ + spec_render_schedule(t.schedule) + "\t"@
        + signed_decimal(t.next_run_epoch_ms as int) + "\t"@ + (if t.enabled {
        "enabled"@
    } else {
        "disabled"@
    })
}

/// One line of the task listing.
pub fn schedule_list_line(task: &ScheduledTask) -> (r: String)
    ensures
        r@ == spec_list_line(task@),
{
    let mut out: Vec<char> = Vec::new();
    push_str(&mut out, task.task_id.as_str());
    push_str(&mut out, "\t");
    push_str(&mut out, task.global_user_id.as_str());
    push_str(&mut out, "\t");
    push_schedule_label(&mut out, &task.schedule);
    push_str(&mut out, "\t");
    push_signed_decimal(&mut out, task.next_run_epoch_ms);
    push_str(&mut out, "\t");
    if task.enabled {
        push_str(&mut out, "enabled");
    } else {
        push_str(&mut out, "disabled");
    }
    assert(out@ =~= spec_list_line(task@));
    string_from_chars(out.as_slice())
}

/// The lines of a listing, one per task in order.
pub fn schedule_list_lines(tasks: &[ScheduledTask]) -> (r: Vec<String>)
    ensures
        r.len() == tasks.len(),
        forall|i: int| 0 <= i < tasks.len() ==> #[trigger] r[i]@ == spec_list_line(tasks[i]@),
{
    let mut out: Vec<String> = Vec::new();
    let mut i: usize = 0;
    while i < tasks.len()
        invariant
            i <= tasks.len(),
            out.len() == i,
            forall|j: int| 0 <= j < i ==> #[trigger] out[j]@ == spec_list_line(tasks[j]@),
        decreases tasks.len() - i,
    {
        out.push(schedule_list_line(&tasks[i]));
        i = i + 1;
    }
    out
}

/// The listing of all stored tasks, one line per task in listing order.
pub fn cmd_schedule_list<S: RuntimeStateStorePort>(service: &RuntimeStateService<S>) -> (r: Result<
    Vec<String>,
    CommandError,
>)
    requires
        service.inv(),
    ensures
        r matches Ok(lines) ==> exists|ts: Seq<ScheduledTaskView>|
            #[trigger] is_task_listing(service.model().tasks, any_task(), ts)
                && lines.len() == ts.len() && forall|i: int|
                0 <= i < ts.len() ==> #[trigger] lines[i]@ == spec_list_line(ts[i]),
        r matches Err(e) ==> e matches CommandError::Service(s) && s is Store,
        service.store_infallible() ==> r is Ok,
{
    match service.list_scheduled_tasks() {
        Ok(tasks) => {
            let lines = schedule_list_lines(tasks.as_slice());
            assert(is_task_listing(service.model().tasks, any_task(), views(tasks@)));
            Ok(lines)
        },
        Err(e) => Err(CommandError::Service(e)),
    }
}

/// A chat channel that a channel run serves.
#[derive(Debug, Clone, Copy, PartialEq, Eq, Structural)]
pub enum ChannelKind {
    /// The command-line prompt.
    Cli,
    /// Discord.
    Discord,
    /// Telegram.
    Telegram,
}

/// The channels a channel run starts: the command line always, then Discord and Telegram,
/// each when it is enabled in the configuration and its token variable is set.
pub open spec fn spec_channel_adapters(
    discord_enabled: bool,
    discord_token_set: bool,
    telegram_enabled: bool,
    telegram_token_set: bool,
) -> Seq<ChannelKind> {
    seq![ChannelKind::Cli] + (if discord_enabled && discord_token_set {
        seq![ChannelKind::Discord]
    } else {
        Seq::empty()
    }) + (if telegram_enabled && telegram_token_set {
        seq![ChannelKind::Telegram]
    } else {
        Seq::empty()
    })
}

/// The channels a channel run starts, in order.
pub fn channel_adapters(
    discord_enabled: bool,
    discord_token_set: bool,
    telegram_enabled: bool,
    telegram_token_set: bool,
) -> (r: Vec<ChannelKind>)
    ensures
        r@ == spec_channel_adapters(
            discord_enabled,
            discord_token_set,
            telegram_enabled,
            telegram_token_set,
        ),
{
    let mut out: Vec<ChannelKind> = Vec::new();
    out.push(ChannelKind::Cli);
    if discord_enabled && discord_token_set {
        out.push(ChannelKind::Discord);
    }
    if telegram_enabled && telegram_token_set {
        out.push(ChannelKind::Telegram);
    }
    assert(out@ =~= spec_channel_adapters(
        discord_enabled,
        discord_token_set,
        telegram_enabled,
        telegram_token_set,
    ));
    out
}

/// The worker tasks of `<profile> <prompt>` pairs, in order.
pub fn worker_tasks_from_pairs(pairs: &[(String, String)]) -> (r: Vec<WorkerTask>)
    ensures
        r.len() == pairs.len(),
        forall|i: int|
            0 <= i < pairs.len() ==> #[trigger] r[i].spec_profile_name() == pairs[i].0@
                && r[i].spec_prompt() == pairs[i].1@,
{
    let mut out: Vec<WorkerTask> = Vec::new();
    let mut i: usize = 0;
    while i < pairs.len()
        invariant
            i <= pairs.len(),
            out.len() == i,
            forall|j: int|
                0 <= j < i ==> #[trigger] out[j].spec_profile_name() == pairs[j].0@
                    && out[j].spec_prompt() == pairs[j].1@,
        decreases pairs.len() - i,
    {
        out.push(WorkerTask::new(pairs[i].0.as_str(), pairs[i].1.as_str()));
        i = i + 1;
    }
    out
}

/// What an orchestration command runs: the orchestrator and one worker task per
/// `<profile> <prompt>` pair; without an orchestrator, orchestration is unavailable.
pub fn cmd_orchestrate<B>(orchestrator: Option<Orchestrator<B>>, workers: Vec<(String, String)>) -> (r:
    Result<(Orchestrator<B>, Vec<WorkerTask>), CommandError>)
    ensures
        orchestrator is None ==> r matches Err(CommandError::OrchestrationUnavailable),
        orchestrator matches Some(o) ==> (r matches Ok((p, tasks)) && p == o && tasks.len()
            == workers.len() && forall|i: int|
            0 <= i < workers.len() ==> #[trigger] tasks[i].spec_profile_name() == workers[i].0@
                && tasks[i].spec_prompt() == workers[i].1@),
{
    match orchestrator {
        None => Err(CommandError::OrchestrationUnavailable),
        Some(o) => {
            let tasks = worker_tasks_from_pairs(workers.as_slice());
            Ok((o, tasks))
        },
    }
}

} // verus!
